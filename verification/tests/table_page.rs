use storage::codec::{push_u16, push_u32, push_u64, read_u16, read_u32, read_u64};
use storage::error::Error;
use storage::frame::PageFrame;
use storage::lru_k_replacer::{max_timestamp, LrukNode};
use storage::page::Page;
use storage::record_id::{decimal_string, RecordId};
use storage::table_page::{
    TablePageMut, TablePageRef, TupleInfo, TupleMetadata, TABLE_PAGE_HEADER_SIZE, TUPLE_INFO_SIZE,
};
use storage::table_tuple_ref_iterator::TableTupleIterator;
use storage::tuple::{Tuple, TupleRef};
use storage::typedef::{INVALID_PAGE_ID, PAGE_SIZE};

fn fresh_page(page_id: u64, next: u64) -> PageFrame {
    let mut frame = PageFrame::new();
    frame.set_page_id(page_id);
    TablePageMut::new(&mut frame).init_header(next);
    frame
}

#[test]
fn test_tuple_metadata() {
    let mut meta = TupleMetadata::new(false);
    assert!(!meta.is_deleted());
    assert_eq!(meta.is_deleted, 0);
    meta.set_deleted(true);
    assert!(meta.is_deleted());
    assert_eq!(meta.is_deleted, 1);
    meta.set_deleted(false);
    assert!(!meta.is_deleted());
    assert!(TupleMetadata::new(true).is_deleted());
    assert!(TupleMetadata { is_deleted: 200 }.is_deleted());
}

#[test]
fn test_tuple_and_tuple_ref() {
    let mut tuple = Tuple::new(vec![1, 2, 3]);
    assert_eq!(tuple.tuple_size(), 3);
    assert_eq!(tuple.data(), &vec![1, 2, 3]);
    tuple.data_mut().push(4);
    assert_eq!(tuple.tuple_size(), 4);
    let bytes = [9u8, 8];
    let tuple_ref = TupleRef::new(&bytes, TupleMetadata::new(true));
    assert_eq!(tuple_ref.data(), &[9, 8]);
    assert!(tuple_ref.metadata().is_deleted());
}

#[test]
fn test_numbers_are_stored_low_byte_first() {
    let mut bytes = Vec::new();
    push_u16(&mut bytes, 0x1234);
    push_u32(&mut bytes, 0xa1b2c3d4);
    push_u64(&mut bytes, 0x0102030405060708);
    assert_eq!(
        bytes,
        vec![0x34, 0x12, 0xd4, 0xc3, 0xb2, 0xa1, 0x08, 0x07, 0x06, 0x05, 0x04, 0x03, 0x02, 0x01]
    );
    assert_eq!(read_u16(&bytes, 0), 0x1234);
    assert_eq!(read_u32(&bytes, 2), 0xa1b2c3d4);
    assert_eq!(read_u64(&bytes, 6), 0x0102030405060708);
    for x in [0u64, 1, 255, 256, 65535, 65536, u64::MAX, 0x8000_0000_0000_0000] {
        let mut b = vec![0xee];
        push_u64(&mut b, x);
        assert_eq!(b[1..], x.to_le_bytes());
        assert_eq!(read_u64(&b, 1), x);
    }
    for x in [0u16, 1, 255, 256, 4096, u16::MAX] {
        let mut b = Vec::new();
        push_u16(&mut b, x);
        assert_eq!(b, x.to_le_bytes());
        assert_eq!(read_u16(&b, 0), x);
    }
}

#[test]
fn test_header_layout() {
    let mut frame = PageFrame::new();
    frame.write(0, &vec![0xaa; PAGE_SIZE]);
    frame.set_page_id(3);
    {
        let mut page = TablePageMut::new(&mut frame);
        page.init_header(0x1122334455667788);
        assert_eq!(page.next_page_id(), 0x1122334455667788);
        assert_eq!(page.tuple_count(), 0);
        assert_eq!(page.deleted_tuple_count(), 0);
        assert_eq!(page.page_id(), 3);
    }
    let mut expected = vec![0x88, 0x77, 0x66, 0x55, 0x44, 0x33, 0x22, 0x11];
    expected.extend_from_slice(&[0; 8]);
    assert_eq!(&frame.data()[..16], expected.as_slice());
    assert!(frame.data()[16..].iter().all(|b| *b == 0xaa));
    {
        let mut page = TablePageMut::new(&mut frame);
        page.set_next_page_id(9);
        page.set_tuple_count(0x0102);
        page.set_deleted_tuple_count(0x0304);
        let header = page.as_ref().header();
        assert_eq!(header.next_page_id, 9);
        assert_eq!(header.tuple_cnt, 0x0102);
        assert_eq!(header.deleted_tuple_cnt, 0x0304);
    }
    assert_eq!(&frame.data()[..12], &[9, 0, 0, 0, 0, 0, 0, 0, 2, 1, 4, 3]);
    assert_eq!(TABLE_PAGE_HEADER_SIZE, 16);
    assert_eq!(TUPLE_INFO_SIZE, 6);
}

#[test]
fn test_insert_lays_tuples_out_from_the_end() {
    let mut frame = fresh_page(4, INVALID_PAGE_ID);
    let mut page = TablePageMut::new(&mut frame);
    let first = page.insert_tuple(&TupleMetadata::new(false), &Tuple::new(vec![1, 2, 3])).unwrap();
    let second = page.insert_tuple(&TupleMetadata::new(true), &Tuple::new(vec![4, 5])).unwrap();
    assert_eq!(first, RecordId::new(4, 0));
    assert_eq!(second, RecordId::new(4, 1));
    assert_eq!(page.tuple_count(), 2);
    let slots = page.slot_array();
    assert_eq!(
        slots,
        vec![
            TupleInfo { offset: 4093, size_bytes: 3, metadata: TupleMetadata::new(false) },
            TupleInfo { offset: 4091, size_bytes: 2, metadata: TupleMetadata::new(true) },
        ]
    );
    assert_eq!(page.get_next_tuple_offset(&Tuple::new(vec![0; 10])).unwrap(), 4081);
    drop(page);
    assert_eq!(&frame.data()[4091..], &[4, 5, 1, 2, 3]);
    assert_eq!(&frame.data()[16..28], &[0xfd, 0x0f, 3, 0, 0, 0, 0xfb, 0x0f, 2, 0, 1, 0]);
    assert_eq!(&frame.data()[8..10], &[2, 0]);
}

#[test]
fn test_insert_until_full() {
    let mut frame = fresh_page(1, INVALID_PAGE_ID);
    let mut page = TablePageMut::new(&mut frame);
    // each tuple takes 10 bytes and a slot of 6
    let mut count = 0u16;
    loop {
        match page.insert_tuple(&TupleMetadata::new(false), &Tuple::new(vec![count as u8; 10])) {
            Ok(rid) => {
                assert_eq!(rid.slot_id(), count);
                count += 1;
            }
            Err(Error::OutOfBounds) => break,
            Err(_) => panic!("only OutOfBounds is expected"),
        }
    }
    assert_eq!(count as usize, (4096 - 16) / 16);
    assert_eq!(page.tuple_count(), 255);
    // nothing was written by the failed insertion
    assert!(matches!(
        page.get_next_tuple_offset(&Tuple::new(vec![0; 10])),
        Err(Error::OutOfBounds)
    ));
    // an empty tuple needs only the slot, which no longer fits either
    assert!(matches!(
        page.insert_tuple(&TupleMetadata::new(false), &Tuple::new(vec![])),
        Err(Error::OutOfBounds)
    ));
    for slot in 0..count {
        let (_, tuple) = page.get_tuple(&RecordId::new(1, slot)).unwrap();
        assert_eq!(tuple.data(), &vec![slot as u8; 10]);
    }
}

#[test]
fn test_tuple_sizes_at_the_limit() {
    let limit = PAGE_SIZE - TABLE_PAGE_HEADER_SIZE - TUPLE_INFO_SIZE;
    let mut frame = fresh_page(1, INVALID_PAGE_ID);
    {
        let mut page = TablePageMut::new(&mut frame);
        assert!(matches!(
            page.insert_tuple(&TupleMetadata::new(false), &Tuple::new(vec![1; limit + 1])),
            Err(Error::OutOfBounds)
        ));
        assert!(matches!(
            page.insert_tuple(&TupleMetadata::new(false), &Tuple::new(vec![1; 5000])),
            Err(Error::OutOfBounds)
        ));
        assert_eq!(page.tuple_count(), 0);
        let rid = page.insert_tuple(&TupleMetadata::new(false), &Tuple::new(vec![1; limit])).unwrap();
        assert_eq!(rid.slot_id(), 0);
        assert_eq!(page.slot_array()[0].offset, 22);
        assert!(matches!(
            page.insert_tuple(&TupleMetadata::new(false), &Tuple::new(vec![])),
            Err(Error::OutOfBounds)
        ));
    }
    let mut frame = fresh_page(1, INVALID_PAGE_ID);
    let mut page = TablePageMut::new(&mut frame);
    let rid = page.insert_tuple(&TupleMetadata::new(false), &Tuple::new(vec![])).unwrap();
    let (_, tuple) = page.get_tuple(&rid).unwrap();
    assert_eq!(tuple.tuple_size(), 0);
    assert_eq!(page.slot_array()[0].offset, 4096);
}

#[test]
fn test_get_tuple_validates_the_record_id() {
    let mut frame = fresh_page(6, INVALID_PAGE_ID);
    TablePageMut::new(&mut frame)
        .insert_tuple(&TupleMetadata::new(false), &Tuple::new(vec![1]))
        .unwrap();
    let page = TablePageRef::new(&frame);
    assert!(page.validate_record_id(&RecordId::new(6, 0)).is_ok());
    match page.get_tuple(&RecordId::new(6, 1)) {
        Err(Error::InvalidInput(s)) => assert_eq!(s, "6:1"),
        _ => panic!("slot 1 does not exist"),
    }
    match page.get_tuple(&RecordId::new(7, 0)) {
        Err(Error::InvalidInput(s)) => assert_eq!(s, "7:0"),
        _ => panic!("the page is not page 7"),
    }
    assert!(matches!(page.get_tuple_ref(&RecordId::new(7, 0)), Err(Error::InvalidInput(_))));
    assert!(matches!(page.validate_record_id(&RecordId::invalid()), Err(Error::InvalidInput(_))));
}

#[test]
fn test_pages_with_a_broken_layout_are_refused() {
    let mut frame = fresh_page(1, INVALID_PAGE_ID);
    let mut page = TablePageMut::new(&mut frame);
    page.set_tuple_count(1);
    page.set_slot(0, TupleInfo { offset: 4090, size_bytes: 7, metadata: TupleMetadata::new(false) });
    // the tuple would end past the page
    assert!(matches!(page.get_tuple(&RecordId::new(1, 0)), Err(Error::OutOfBounds)));
    page.set_slot(0, TupleInfo { offset: 4090, size_bytes: 6, metadata: TupleMetadata::new(false) });
    assert_eq!(page.get_tuple(&RecordId::new(1, 0)).unwrap().1.tuple_size(), 6);
    // a slot array that does not fit into the page
    page.set_tuple_count(681);
    assert!(matches!(page.get_tuple(&RecordId::new(1, 0)), Err(Error::OutOfBounds)));
    assert!(matches!(
        page.update_tuple_metadata(&RecordId::new(1, 0), TupleMetadata::new(true)),
        Err(Error::OutOfBounds)
    ));
    assert!(matches!(
        page.insert_tuple(&TupleMetadata::new(false), &Tuple::new(vec![1])),
        Err(Error::OutOfBounds)
    ));
    page.set_tuple_count(680);
    assert!(page.get_tuple(&RecordId::new(1, 0)).is_ok());
    // a last slot that points past the page
    page.set_tuple_count(2);
    page.set_slot(1, TupleInfo { offset: 5000, size_bytes: 0, metadata: TupleMetadata::new(false) });
    assert!(matches!(
        page.insert_tuple(&TupleMetadata::new(false), &Tuple::new(vec![1])),
        Err(Error::OutOfBounds)
    ));
}

#[test]
fn test_update_tuple_metadata() {
    let mut frame = fresh_page(2, 5);
    let mut page = TablePageMut::new(&mut frame);
    let a = page.insert_tuple(&TupleMetadata::new(false), &Tuple::new(vec![1, 2])).unwrap();
    let b = page.insert_tuple(&TupleMetadata::new(false), &Tuple::new(vec![3, 4])).unwrap();
    page.update_tuple_metadata(&b, TupleMetadata::new(true)).unwrap();
    page.update_tuple_metadata(&b, TupleMetadata::new(true)).unwrap();
    let (meta_a, tuple_a) = page.get_tuple(&a).unwrap();
    let (meta_b, tuple_b) = page.get_tuple(&b).unwrap();
    assert!(!meta_a.is_deleted());
    assert!(meta_b.is_deleted());
    assert_eq!(tuple_a.data(), &[1, 2]);
    assert_eq!(tuple_b.data(), &[3, 4]);
    assert_eq!(page.next_page_id(), 5);
    assert_eq!(page.tuple_count(), 2);
    assert!(matches!(
        page.update_tuple_metadata(&RecordId::new(2, 2), TupleMetadata::new(true)),
        Err(Error::InvalidInput(_))
    ));
    page.update_tuple_metadata(&b, TupleMetadata::new(false)).unwrap();
    assert!(!page.get_tuple(&b).unwrap().0.is_deleted());
}

#[test]
fn test_page_tuple_iterator_hands_out_deleted_tuples_too() {
    let mut frame = fresh_page(2, INVALID_PAGE_ID);
    {
        let mut page = TablePageMut::new(&mut frame);
        page.insert_tuple(&TupleMetadata::new(false), &Tuple::new(vec![1])).unwrap();
        page.insert_tuple(&TupleMetadata::new(true), &Tuple::new(vec![2, 2])).unwrap();
    }
    let page = TablePageRef::new(&frame);
    let mut iter = TableTupleIterator::new(&page);
    assert_eq!(iter.current_slot(), 0);
    let first = iter.next().unwrap().unwrap();
    assert_eq!(first.data(), &[1]);
    assert!(!first.metadata().is_deleted());
    let second = iter.next().unwrap().unwrap();
    assert_eq!(second.data(), &[2, 2]);
    assert!(second.metadata().is_deleted());
    assert!(iter.next().is_none());
    assert!(iter.next().is_none());
    assert_eq!(iter.current_slot(), 2);
}

#[test]
fn test_page_frame() {
    let mut frame = PageFrame::new();
    assert_eq!(frame.page_id(), INVALID_PAGE_ID);
    assert_eq!(frame.pin_count(), 0);
    assert!(!frame.is_dirty());
    assert_eq!(frame.data(), vec![0u8; PAGE_SIZE].as_slice());
    frame.set_page_id(8);
    frame.set_dirty(true);
    frame.set_pin_count(2);
    frame.increment_pin_count();
    assert_eq!(frame.pin_count(), 3);
    frame.decrement_pin_count();
    frame.decrement_pin_count();
    assert_eq!(frame.pin_count(), 1);
    frame.write(4093, &[1, 2, 3]);
    frame.write(0, &[]);
    frame.data_mut()[1] = 7;
    assert_eq!(frame.byte(1), 7);
    assert_eq!(frame.byte(4095), 3);
    assert_eq!(&frame.data()[4092..], &[0, 1, 2, 3]);
    assert_eq!(frame.page_id(), 8);
    assert!(frame.is_dirty());
    frame.reset();
    assert_eq!(frame.page_id(), INVALID_PAGE_ID);
    assert_eq!(frame.pin_count(), 0);
    assert!(!frame.is_dirty());
    assert!(frame.data().iter().all(|b| *b == 0));
}

#[test]
fn test_page() {
    let mut page = Page::new();
    assert_eq!(page.page_id, INVALID_PAGE_ID);
    assert_eq!(page.pin_cnt, 0);
    assert!(!page.is_dirty);
    page.write(10, &[1, 2, 3, 4]);
    assert_eq!(page.read(11, 2), &[2, 3]);
    assert_eq!(page.read(4096, 0), &[] as &[u8]);
    assert_eq!(page.read(0, 4096).len(), 4096);
    page.data_mut()[0] = 5;
    assert_eq!(page.data()[0], 5);
    assert_eq!(page.data().len(), PAGE_SIZE);
}

#[test]
fn test_lru_k_node_distances() {
    let mut node = LrukNode {
        frame_id: 1,
        is_evictable: true,
        history: std::collections::VecDeque::new(),
        k: 2,
    };
    assert_eq!(max_timestamp(), u64::MAX);
    assert!(node.has_infinite_backwards_k_distance());
    assert_eq!(node.get_backwards_k_distance(100), u64::MAX);
    node.history.push_back(10);
    assert!(node.has_infinite_backwards_k_distance());
    assert_eq!(node.get_backwards_k_distance(100), u64::MAX);
    node.history.push_back(30);
    assert!(!node.has_infinite_backwards_k_distance());
    assert_eq!(node.get_kth_most_recent_timestamp(), 10);
    assert_eq!(node.get_backwards_k_distance(100), 90);
    assert_eq!(node.get_backwards_k_distance(10), 0);
}

#[test]
fn test_decimal_string() {
    assert_eq!(decimal_string(0), "0");
    assert_eq!(decimal_string(9), "9");
    assert_eq!(decimal_string(10), "10");
    assert_eq!(decimal_string(4096), "4096");
    assert_eq!(decimal_string(u64::MAX), "18446744073709551615");
}
