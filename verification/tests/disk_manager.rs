use storage::disk_manager::{zero_page, DiskManager, DELETED_FLAG};
use storage::error::Error;
use storage::typedef::PAGE_SIZE;

#[test]
fn test_new_manager_clears_page_zero() {
    let (_manager, write) = DiskManager::new();
    assert_eq!(write.offset, 0);
    assert_eq!(write.data, vec![0u8; 4096]);
    assert!(write.sync);
}

#[test]
fn test_allocated_ids_grow_from_one() {
    let (mut manager, _) = DiskManager::new();
    let mut last = 0;
    for expected in 1..=20u64 {
        let (page_id, write) = manager.allocate_page().unwrap();
        assert_eq!(page_id, expected);
        assert!(page_id > last);
        last = page_id;
        assert_eq!(write.offset, expected * 4096);
        assert_eq!(write.data, vec![0u8; 4096]);
        assert!(write.sync);
    }
    // deallocation does not give an id back
    manager.deallocate_page(&20).unwrap();
    assert_eq!(manager.allocate_page().unwrap().0, 21);
}

#[test]
fn test_calculate_offset() {
    assert_eq!(DiskManager::calculate_offset(&0).unwrap(), 0);
    assert_eq!(DiskManager::calculate_offset(&1).unwrap(), 4096);
    assert_eq!(DiskManager::calculate_offset(&3).unwrap(), 12288);
    let last = u64::MAX / 4096;
    assert_eq!(DiskManager::calculate_offset(&last).unwrap(), 0xffff_ffff_ffff_f000);
    assert!(matches!(
        DiskManager::calculate_offset(&(last + 1)),
        Err(Error::ArithmeticOverflow)
    ));
    assert!(matches!(DiskManager::calculate_offset(&u64::MAX), Err(Error::ArithmeticOverflow)));
}

#[test]
fn test_deallocate_writes_one_byte() {
    let (mut manager, _) = DiskManager::new();
    let write = manager.deallocate_page(&3).unwrap();
    assert_eq!(write.offset, 3 * 4096);
    assert_eq!(write.data, vec![1u8]);
    assert_eq!(DELETED_FLAG, 1);
    assert!(!write.sync);
    assert!(matches!(manager.deallocate_page(&u64::MAX), Err(Error::ArithmeticOverflow)));
}

#[test]
fn test_write_checks_the_length() {
    let (manager, _) = DiskManager::new();
    let write = manager.write(&2, &[1, 2, 3]).unwrap();
    assert_eq!(write.offset, 8192);
    assert_eq!(write.data, vec![1, 2, 3]);
    assert!(write.sync);
    assert!(manager.write(&2, &vec![0u8; PAGE_SIZE]).is_ok());
    assert!(matches!(manager.write(&2, &vec![0u8; PAGE_SIZE + 1]), Err(Error::InvalidInput(_))));
    assert!(matches!(manager.write(&u64::MAX, &[1]), Err(Error::ArithmeticOverflow)));
    // the length is looked at first
    assert!(matches!(
        manager.write(&u64::MAX, &vec![0u8; PAGE_SIZE + 1]),
        Err(Error::InvalidInput(_))
    ));
}

#[test]
fn test_read() {
    let (mut manager, _) = DiskManager::new();
    manager.allocate_page().unwrap();
    manager.allocate_page().unwrap();

    let mut raw = vec![7u8; PAGE_SIZE];
    raw[0] = 0;
    assert_eq!(manager.read(&2, &raw).unwrap().unwrap(), raw);
    // more than a page is cut off
    let mut long = raw.clone();
    long.push(9);
    assert_eq!(manager.read(&1, &long).unwrap().unwrap(), raw);
    // a deallocated page
    raw[0] = 1;
    assert!(manager.read(&2, &raw).unwrap().is_none());
    assert!(manager.read(&2, &[1]).unwrap().is_none());
    // the file ends too early
    match manager.read(&2, &vec![0u8; PAGE_SIZE - 1]) {
        Err(Error::IO(s)) => assert_eq!(s, "2"),
        _ => panic!("a short page must not be read"),
    }
    assert!(matches!(manager.read(&2, &[]), Err(Error::IO(_))));
    // a page that was never allocated
    raw[0] = 0;
    assert!(matches!(manager.read(&3, &raw), Err(Error::IO(_))));
    assert!(matches!(manager.read(&u64::MAX, &raw), Err(Error::ArithmeticOverflow)));
}

#[test]
fn test_is_deleted() {
    assert_eq!(DiskManager::is_deleted(&[1, 0, 0]).unwrap(), true);
    assert_eq!(DiskManager::is_deleted(&[0, 1, 1]).unwrap(), false);
    assert_eq!(DiskManager::is_deleted(&[2]).unwrap(), false);
    assert!(matches!(DiskManager::is_deleted(&[]), Err(Error::IO(_))));
}

#[test]
fn test_zero_page() {
    assert_eq!(zero_page(), vec![0u8; 4096]);
}
