use storage::buffer_pool::BufferPoolManager;
use storage::disk_manager::{DiskManager, DiskWrite};
use storage::error::Error;
use storage::lru_replacer::LruReplacer;
use storage::record_id::RecordId;
use storage::table_heap::TableHeap;
use storage::table_iterator::{IterStep, TableIterator};
use storage::table_page::{
    TablePageRef, TupleMetadata, TABLE_PAGE_HEADER_SIZE, TUPLE_INFO_SIZE,
};
use storage::table_page_iterator::TablePageIterator;
use storage::table_tuple_iterator::TableTupleIterator;
use storage::tuple::{Tuple, TupleRef};
use storage::typedef::{INVALID_PAGE_ID, PAGE_SIZE};

/// The file of the engine, held in memory.
struct Disk {
    filename: String,
    file: Vec<u8>,
}

impl Disk {
    /// Performs the writes that the engine asked for, in order.
    fn take(&mut self, writes: &mut Vec<DiskWrite>) {
        for write in writes.drain(..) {
            let start = write.offset as usize;
            let end = start + write.data.len();
            if self.file.len() < end {
                self.file.resize(end, 0);
            }
            self.file[start..end].copy_from_slice(&write.data);
        }
    }

    /// What the file holds from the start of a page on, one page at most.
    fn raw(&self, page_id: u64) -> Vec<u8> {
        let start = match page_id.checked_mul(PAGE_SIZE as u64) {
            Some(start) if (start as usize) < self.file.len() => start as usize,
            _ => return Vec::new(),
        };
        let end = usize::min(start + PAGE_SIZE, self.file.len());
        self.file[start..end].to_vec()
    }
}

/// Creates the file `filename` anew and puts a pool of `pool_size` frames
/// over it.
fn open_pool(filename: &str, pool_size: usize) -> (BufferPoolManager<LruReplacer>, Disk) {
    let mut disk = Disk { filename: filename.to_string(), file: Vec::new() };
    let (disk_manager, clear) = DiskManager::new();
    disk.take(&mut vec![clear]);
    (BufferPoolManager::new(pool_size, disk_manager, LruReplacer::new()), disk)
}

/// The bytes to hand to a fetch: read from the file only for a page that is
/// not resident.
fn raw_for(bpm: &BufferPoolManager<LruReplacer>, disk: &Disk, page_id: u64) -> Vec<u8> {
    if bpm.contains_page(&page_id) {
        Vec::new()
    } else {
        disk.raw(page_id)
    }
}

fn new_heap(bpm: &mut BufferPoolManager<LruReplacer>, disk: &mut Disk) -> TableHeap {
    let mut writes = Vec::new();
    let heap = TableHeap::new(bpm, &mut writes).expect("Failed to create root page for table heap");
    disk.take(&mut writes);
    heap
}

fn insert(
    heap: &mut TableHeap,
    bpm: &mut BufferPoolManager<LruReplacer>,
    disk: &mut Disk,
    tuple: &Tuple,
) -> Result<RecordId, Error> {
    let raw = raw_for(bpm, disk, heap.last_page_id());
    let mut writes = Vec::new();
    let rid = heap.insert_tuple(bpm, tuple, &raw, &mut writes);
    disk.take(&mut writes);
    rid
}

fn get(
    heap: &TableHeap,
    bpm: &mut BufferPoolManager<LruReplacer>,
    disk: &mut Disk,
    rid: &RecordId,
) -> Result<(TupleMetadata, Tuple), Error> {
    let raw = raw_for(bpm, disk, rid.page_id());
    let mut writes = Vec::new();
    let found = heap.get_tuple(bpm, rid, &raw, &mut writes);
    disk.take(&mut writes);
    found
}

fn delete(
    heap: &TableHeap,
    bpm: &mut BufferPoolManager<LruReplacer>,
    disk: &mut Disk,
    rid: &RecordId,
) -> Result<(TupleMetadata, Tuple), Error> {
    let raw = raw_for(bpm, disk, rid.page_id());
    let mut writes = Vec::new();
    let deleted = heap.delete_tuple(bpm, rid, &raw, &mut writes);
    disk.take(&mut writes);
    deleted
}

/// Runs a walk to its end and gathers what it hands out.
fn collect(
    mut iter: TableIterator,
    bpm: &mut BufferPoolManager<LruReplacer>,
    disk: &mut Disk,
) -> Result<Vec<(RecordId, Tuple)>, Error> {
    let mut tuples = Vec::new();
    loop {
        let raw = raw_for(bpm, disk, iter.current_page_id());
        let mut writes = Vec::new();
        let step = iter.step(bpm, &raw, &mut writes);
        disk.take(&mut writes);
        match step {
            IterStep::Done => return Ok(tuples),
            IterStep::Tuple(rid, tuple) => tuples.push((rid, tuple)),
            IterStep::Skipped => {}
            IterStep::Failed(e) => return Err(e),
        }
    }
}

/// Pins the next page of the chain; the caller releases the handle.
fn next_page(
    iter: &mut TablePageIterator,
    bpm: &mut BufferPoolManager<LruReplacer>,
    disk: &mut Disk,
) -> Option<Result<storage::frame_handle::PageFrameRefHandle, Error>> {
    let raw = raw_for(bpm, disk, iter.current_page_id());
    let mut writes = Vec::new();
    let page = iter.next(bpm, &raw, &mut writes);
    disk.take(&mut writes);
    page
}

/// Test that we can insert a tuple into the table heap and then retrieve it correctly.
#[test]
fn test_table_heap_insert_and_get() {
    let (mut bpm, mut disk) = open_pool("test.db", 10);

    let mut table_heap = new_heap(&mut bpm, &mut disk);

    let tuple_data = vec![10, 20, 30, 40, 50];
    let tuple = Tuple::new(tuple_data.clone());

    let rid = insert(&mut table_heap, &mut bpm, &mut disk, &tuple).unwrap();
    let (meta, retrieved_tuple) = get(&table_heap, &mut bpm, &mut disk, &rid).unwrap();
    assert_eq!(retrieved_tuple.data().as_slice(), tuple_data.as_slice());
    assert!(!meta.is_deleted());
}

/// Test that a tuple insertion that would overflow the current page
/// triggers allocation of a new page and that both tuples are correctly stored.
#[test]
fn test_table_heap_new_page_allocation() {
    let (mut bpm, mut disk) = open_pool("test.db", 2);

    let mut table_heap = new_heap(&mut bpm, &mut disk);

    // Create and insert a huge tuple that nearly fills the page.
    let huge_tuple_size = PAGE_SIZE - TABLE_PAGE_HEADER_SIZE - TUPLE_INFO_SIZE - 5;
    assert_eq!(huge_tuple_size, 4069);
    let huge_tuple_data = vec![1; huge_tuple_size];
    let huge_tuple = Tuple::new(huge_tuple_data.clone());
    let rid1 = insert(&mut table_heap, &mut bpm, &mut disk, &huge_tuple).unwrap();

    // Insert another tuple. This insertion should detect insufficient space in the
    // current page and cause a new page to be allocated.
    let small_tuple_data = vec![2, 3, 4, 5, 2, 3, 4, 5, 2, 3, 4, 5, 2, 3, 4, 5];
    let small_tuple = Tuple::new(small_tuple_data.clone());
    let rid2 = insert(&mut table_heap, &mut bpm, &mut disk, &small_tuple).unwrap();

    // Verify that the two record IDs have different page ids.
    assert_ne!(rid1.page_id(), rid2.page_id());

    // Retrieve both tuples and verify their data.
    let (_meta1, retrieved_huge) = get(&table_heap, &mut bpm, &mut disk, &rid1).unwrap();
    let (_meta2, retrieved_small) = get(&table_heap, &mut bpm, &mut disk, &rid2).unwrap();
    assert_eq!(retrieved_huge.data().as_slice(), huge_tuple_data.as_slice());
    assert_eq!(retrieved_small.data().as_slice(), small_tuple_data.as_slice());

    assert_eq!(table_heap.page_count(), 2);
    assert_eq!(table_heap.first_page_id(), rid1.page_id());
    assert_eq!(table_heap.last_page_id(), rid2.page_id());
    assert_eq!(bpm.free_frame_count(), 2);
}

/// Test that the iterator correctly visits all non-deleted tuples in the table heap.
#[test]
fn table_iterator_test_table_iterator() {
    let (mut bpm, mut disk) = open_pool("test.db", 10);

    let mut table_heap = new_heap(&mut bpm, &mut disk);

    let tuple1 = Tuple::new(vec![1, 2, 3]);
    let tuple2 = Tuple::new(vec![4, 5, 6]);
    let tuple3 = Tuple::new(vec![7, 8, 9]);
    let tuple4 = Tuple::new(vec![10, 11, 12]);
    let tuple5 = Tuple::new(vec![13, 14, 15]);

    insert(&mut table_heap, &mut bpm, &mut disk, &tuple1).unwrap();
    insert(&mut table_heap, &mut bpm, &mut disk, &tuple2).unwrap();
    let rid3 = insert(&mut table_heap, &mut bpm, &mut disk, &tuple3).unwrap();
    insert(&mut table_heap, &mut bpm, &mut disk, &tuple4).unwrap();
    insert(&mut table_heap, &mut bpm, &mut disk, &tuple5).unwrap();

    delete(&table_heap, &mut bpm, &mut disk, &rid3).unwrap();

    let iter = TableIterator::new(&table_heap);

    // Collect all tuples from the iterator.
    let tuples = collect(iter, &mut bpm, &mut disk).unwrap();
    assert_eq!(tuples.len(), 4);
    assert_eq!(tuples[0].1.data(), &[1, 2, 3]);
    assert_eq!(tuples[1].1.data(), &[4, 5, 6]);
    assert_eq!(tuples[2].1.data(), &[10, 11, 12]);
    assert_eq!(tuples[3].1.data(), &[13, 14, 15]);
}

#[test]
fn test_table_page_iterator() {
    let (mut bpm, mut disk) = open_pool("test.db", 10);

    let mut table_heap = new_heap(&mut bpm, &mut disk);

    let pages_wanted = 10;
    let mut first_page_id: Option<u64> = None;

    loop {
        let tuple = Tuple::new(vec![1, 2, 3]);
        let rid = insert(&mut table_heap, &mut bpm, &mut disk, &tuple).unwrap();
        if first_page_id.is_none() {
            first_page_id = Some(rid.page_id());
        }
        if rid.page_id() >= pages_wanted {
            break;
        }
    }

    let mut iter = TablePageIterator::new(table_heap.first_page_id());

    let mut current_page_id = first_page_id.unwrap();
    while let Some(page) = next_page(&mut iter, &mut bpm, &mut disk) {
        let handle = page.unwrap();
        assert_eq!(current_page_id, TablePageRef::new(handle.page_frame(&bpm)).page_id());
        current_page_id += 1;
        handle.release(&mut bpm);
    }
    assert_eq!(current_page_id, 11);
}

/// Test that the iterator correctly visits all non-deleted tuples in the table heap.
#[test]
fn table_tuple_iterator_test_table_iterator() {
    let (mut bpm, mut disk) = open_pool("test.db", 10);

    let mut table_heap = new_heap(&mut bpm, &mut disk);

    let tuple1 = Tuple::new(vec![1, 2, 3]);
    let tuple2 = Tuple::new(vec![4, 5, 6]);
    let tuple3 = Tuple::new(vec![7, 8, 9]);
    let tuple4 = Tuple::new(vec![10, 11, 12]);
    let tuple5 = Tuple::new(vec![13, 14, 15]);

    insert(&mut table_heap, &mut bpm, &mut disk, &tuple1).unwrap();
    insert(&mut table_heap, &mut bpm, &mut disk, &tuple2).unwrap();
    let rid3 = insert(&mut table_heap, &mut bpm, &mut disk, &tuple3).unwrap();
    insert(&mut table_heap, &mut bpm, &mut disk, &tuple4).unwrap();
    insert(&mut table_heap, &mut bpm, &mut disk, &tuple5).unwrap();

    delete(&table_heap, &mut bpm, &mut disk, &rid3).unwrap();

    let iter = TableTupleIterator::new(&table_heap);

    // Collect all tuples from the iterator.
    let tuples = collect(iter, &mut bpm, &mut disk).unwrap();
    assert_eq!(tuples.len(), 4);
    assert_eq!(tuples[0].1.data(), &[1, 2, 3]);
    assert_eq!(tuples[1].1.data(), &[4, 5, 6]);
    assert_eq!(tuples[2].1.data(), &[10, 11, 12]);
    assert_eq!(tuples[3].1.data(), &[13, 14, 15]);
}

#[test]
fn test_table_tuple_iterator_multiple_pages() {
    let (mut bpm, mut disk) = open_pool("test_multiple_pages.db", 10);
    let mut table_heap = new_heap(&mut bpm, &mut disk);

    let pages_wanted = 10;
    let mut inserted = 0;
    let mut inserted_data: Vec<Vec<u8>> = Vec::new();
    let mut inserted_rid: Vec<RecordId> = Vec::new();
    loop {
        let tuple = Tuple::new(vec![
            (inserted % 256) as u8,
            ((inserted + 1) % 256) as u8,
            ((inserted + 2) % 256) as u8,
        ]);
        let rid = insert(&mut table_heap, &mut bpm, &mut disk, &tuple).unwrap();
        inserted += 1;
        inserted_data.push(tuple.data().to_vec());
        inserted_rid.push(rid.clone());
        if rid.page_id() >= pages_wanted {
            break;
        }
    }

    let iter = TableTupleIterator::new(&table_heap);

    let all_tuples: Vec<(RecordId, Tuple)> = collect(iter, &mut bpm, &mut disk).unwrap();

    let num_tuples = inserted_data.len();

    assert_eq!(all_tuples.len(), num_tuples as usize);
    for ((expected_data, expected_rid), (actual_rid, actual_tuple)) in inserted_data
        .into_iter()
        .zip(inserted_rid.into_iter())
        .zip(all_tuples.into_iter())
    {
        assert_eq!(expected_data, actual_tuple.data().to_vec());
        assert_eq!(expected_rid, actual_rid);
    }
}

#[test]
fn test_table_tuple_iterator() {
    let (mut bpm, mut disk) = open_pool("test.db", 10);

    let mut table_heap = new_heap(&mut bpm, &mut disk);

    let t1_data = vec![10, 20, 30];
    let t2_data = vec![40, 50, 60];
    let t3_data = vec![70, 80, 90];
    let tuple1 = Tuple::new(t1_data.clone());
    let tuple2 = Tuple::new(t2_data.clone());
    let tuple3 = Tuple::new(t3_data.clone());

    let _rid1 = insert(&mut table_heap, &mut bpm, &mut disk, &tuple1).unwrap();
    let _rid2 = insert(&mut table_heap, &mut bpm, &mut disk, &tuple2).unwrap();
    let _rid3 = insert(&mut table_heap, &mut bpm, &mut disk, &tuple3).unwrap();

    let first_page_id = table_heap.first_page_id();

    let raw = raw_for(&bpm, &disk, first_page_id);
    let mut writes = Vec::new();
    let frame_handle = bpm.fetch_page_handle(&first_page_id, &raw, &mut writes).unwrap();
    disk.take(&mut writes);
    let table_page = TablePageRef::new(frame_handle.page_frame(&bpm));

    let mut iter = storage::table_tuple_ref_iterator::TableTupleIterator::new(&table_page);

    let mut collected: Vec<Vec<u8>> = Vec::new();
    while let Some(tuple_result) = iter.next() {
        let tuple_ref: TupleRef = tuple_result.unwrap();
        assert!(!tuple_ref.metadata().is_deleted());
        collected.push(tuple_ref.data().to_vec());
    }

    assert_eq!(collected.len(), 3);
    assert_eq!(collected[0], t1_data);
    assert_eq!(collected[1], t2_data);
    assert_eq!(collected[2], t3_data);
}

#[test]
fn test_combined_page_and_tuple_iterators() {
    let (mut bpm, mut disk) = open_pool("test.db", 10);
    let mut table_heap = new_heap(&mut bpm, &mut disk);

    let pages_wanted = 10;
    let mut num_tuples = 0;
    let mut inserted_data: Vec<Vec<u8>> = Vec::new();
    loop {
        let tuple = Tuple::new(vec![1, 2, 3]);
        let rid = insert(&mut table_heap, &mut bpm, &mut disk, &tuple).unwrap();
        num_tuples += 1;
        inserted_data.push(tuple.data().to_vec());
        if rid.page_id() >= pages_wanted {
            break;
        }
    }

    let mut page_iter = TablePageIterator::new(table_heap.first_page_id());
    let mut all_tuples: Vec<Vec<u8>> = Vec::new();

    while let Some(page_result) = next_page(&mut page_iter, &mut bpm, &mut disk) {
        let handle = page_result.unwrap();
        {
            let page: TablePageRef = TablePageRef::new(handle.page_frame(&bpm));
            let mut tuple_iter =
                storage::table_tuple_ref_iterator::TableTupleIterator::new(&page);
            while let Some(tuple_result) = tuple_iter.next() {
                let tuple_ref: TupleRef = tuple_result.unwrap();
                assert!(!tuple_ref.metadata().is_deleted());
                all_tuples.push(tuple_ref.data().to_vec());
            }
        }
        handle.release(&mut bpm);
    }

    assert_eq!(all_tuples.len(), num_tuples as usize);
    for (expected, actual) in inserted_data.into_iter().zip(all_tuples.into_iter()) {
        assert_eq!(expected, actual);
    }
}

#[test]
fn test_new_heap_is_one_empty_page() {
    let (mut bpm, mut disk) = open_pool("test.db", 2);
    let heap = new_heap(&mut bpm, &mut disk);
    assert_eq!(heap.first_page_id(), 1);
    assert_eq!(heap.last_page_id(), 1);
    assert_eq!(heap.page_count(), 1);
    assert_eq!(heap.page_iter().current_page_id(), 1);
    assert_eq!(disk.filename, "test.db");
    // the page is left unpinned and dirty
    assert_eq!(bpm.free_frame_count(), 2);
    let frame = bpm.frame(bpm.frame_of(&1).unwrap());
    assert!(frame.is_dirty());
    assert_eq!(frame.pin_count(), 0);
    let page = TablePageRef::new(frame);
    assert_eq!(page.next_page_id(), INVALID_PAGE_ID);
    assert_eq!(page.tuple_count(), 0);
    assert!(collect(TableIterator::new(&heap), &mut bpm, &mut disk).unwrap().is_empty());
}

#[test]
fn test_new_heap_fails_when_the_pool_is_full() {
    let (mut bpm, mut disk) = open_pool("test.db", 1);
    let mut writes = Vec::new();
    let pinned = bpm.create_page_handle(&mut writes).unwrap();
    disk.take(&mut writes);
    let r = TableHeap::new(&mut bpm, &mut writes);
    assert!(matches!(r, Err(Error::BufferPoolFull)));
    pinned.release(&mut bpm);
}

#[test]
fn test_record_ids_count_up_within_a_page() {
    let (mut bpm, mut disk) = open_pool("test.db", 3);
    let mut heap = new_heap(&mut bpm, &mut disk);
    for slot in 0..20u16 {
        let rid = insert(&mut heap, &mut bpm, &mut disk, &Tuple::new(vec![slot as u8; 7])).unwrap();
        assert_eq!(rid, RecordId::new(1, slot));
    }
    for slot in 0..20u16 {
        let (meta, tuple) = get(&heap, &mut bpm, &mut disk, &RecordId::new(1, slot)).unwrap();
        assert!(!meta.is_deleted());
        assert_eq!(tuple.data(), &vec![slot as u8; 7]);
    }
}

#[test]
fn test_largest_tuple_fits_an_empty_page_and_a_larger_one_never_fits() {
    let (mut bpm, mut disk) = open_pool("test.db", 3);
    let mut heap = new_heap(&mut bpm, &mut disk);
    let largest = PAGE_SIZE - TABLE_PAGE_HEADER_SIZE - TUPLE_INFO_SIZE;
    assert_eq!(largest, 4074);
    let rid = insert(&mut heap, &mut bpm, &mut disk, &Tuple::new(vec![7; largest])).unwrap();
    assert_eq!(rid, RecordId::new(1, 0));
    let (_, tuple) = get(&heap, &mut bpm, &mut disk, &rid).unwrap();
    assert_eq!(tuple.tuple_size(), largest);

    let r = insert(&mut heap, &mut bpm, &mut disk, &Tuple::new(vec![7; largest + 1]));
    assert!(matches!(r, Err(Error::OutOfBounds)));
    // the page that was linked for it stays linked, but the heap did not move on
    assert_eq!(heap.last_page_id(), 1);
    assert_eq!(heap.page_count(), 1);
    assert_eq!(bpm.free_frame_count(), 3);
    let r = insert(&mut heap, &mut bpm, &mut disk, &Tuple::new(vec![7; 70000]));
    assert!(matches!(r, Err(Error::OutOfBounds)));
}

#[test]
fn test_get_tuple_errors() {
    let (mut bpm, mut disk) = open_pool("test.db", 3);
    let mut heap = new_heap(&mut bpm, &mut disk);
    insert(&mut heap, &mut bpm, &mut disk, &Tuple::new(vec![1])).unwrap();
    match get(&heap, &mut bpm, &mut disk, &RecordId::new(1, 1)) {
        Err(Error::InvalidInput(s)) => assert_eq!(s, "1:1"),
        _ => panic!("slot 1 does not exist"),
    }
    match get(&heap, &mut bpm, &mut disk, &RecordId::new(5, 0)) {
        Err(Error::IO(s)) => assert_eq!(s, "5"),
        _ => panic!("page 5 does not exist"),
    }
    assert!(matches!(
        delete(&heap, &mut bpm, &mut disk, &RecordId::new(1, 9)),
        Err(Error::InvalidInput(_))
    ));
    assert_eq!(bpm.free_frame_count(), 3);
}

#[test]
fn test_delete_is_idempotent() {
    let (mut bpm, mut disk) = open_pool("test.db", 3);
    let mut heap = new_heap(&mut bpm, &mut disk);
    let a = insert(&mut heap, &mut bpm, &mut disk, &Tuple::new(vec![1, 1])).unwrap();
    let b = insert(&mut heap, &mut bpm, &mut disk, &Tuple::new(vec![2, 2])).unwrap();

    let (meta, tuple) = delete(&heap, &mut bpm, &mut disk, &b).unwrap();
    assert!(!meta.is_deleted());
    assert_eq!(tuple.data(), &[2, 2]);
    let (meta, tuple) = delete(&heap, &mut bpm, &mut disk, &b).unwrap();
    assert!(meta.is_deleted());
    assert_eq!(tuple.data(), &[2, 2]);

    let (meta, _) = get(&heap, &mut bpm, &mut disk, &b).unwrap();
    assert!(meta.is_deleted());
    let (meta, _) = get(&heap, &mut bpm, &mut disk, &a).unwrap();
    assert!(!meta.is_deleted());

    let left = collect(TableIterator::new(&heap), &mut bpm, &mut disk).unwrap();
    assert_eq!(left.len(), 1);
    assert_eq!(left[0].0, a);
    assert_eq!(left[0].1.data(), &[1, 1]);
    assert_eq!(bpm.free_frame_count(), 3);
}

#[test]
fn test_heap_survives_a_pool_of_two_frames() {
    let (mut bpm, mut disk) = open_pool("test.db", 2);
    let mut heap = new_heap(&mut bpm, &mut disk);
    let mut rids = Vec::new();
    for i in 0..40u32 {
        let tuple = Tuple::new(vec![(i % 251) as u8; 1000]);
        rids.push(insert(&mut heap, &mut bpm, &mut disk, &tuple).unwrap());
    }
    assert_eq!(heap.page_count(), 10);
    for (i, rid) in rids.iter().enumerate() {
        let (_, tuple) = get(&heap, &mut bpm, &mut disk, rid).unwrap();
        assert_eq!(tuple.data(), &vec![(i % 251) as u8; 1000]);
    }
    let all = collect(TableIterator::new(&heap), &mut bpm, &mut disk).unwrap();
    assert_eq!(all.len(), 40);
    assert_eq!(all.iter().map(|(rid, _)| *rid).collect::<Vec<_>>(), rids);
    assert_eq!(bpm.free_frame_count(), 2);
}

#[test]
fn test_page_whose_first_byte_is_the_deleted_mark_reads_as_missing() {
    // The only sign of a deallocated page is its first byte, which in a
    // table page is the low byte of the id of the next page.
    let (mut bpm, mut disk) = open_pool("test.db", 1);
    let mut writes = Vec::new();
    let handle = bpm.create_page_handle(&mut writes).unwrap();
    disk.take(&mut writes);
    {
        let mut page = storage::table_page::TablePageMut::new(handle.page_frame_mut(&mut bpm));
        page.init_header(257);
    }
    handle.release(&mut bpm);
    let other = bpm.create_page_handle(&mut writes).unwrap();
    disk.take(&mut writes);
    other.release(&mut bpm);
    let raw = raw_for(&bpm, &disk, 1);
    assert_eq!(raw[0], 1);
    let r = bpm.fetch_page_handle(&1, &raw, &mut writes);
    assert!(matches!(r, Err(Error::IO(_))));
}
