use box_raw_ptr::allocator::Allocator;
use box_raw_ptr::const_raw_ptr::ConstRawPtr;
use box_raw_ptr::mut_raw_ptr::MutRawPtr;

#[test]
fn c_allocator_test() {
    let mut bridge: Allocator<i32> = Allocator::new();
    let alloc: usize = bridge.allocate(1).unwrap();
    let _: MutRawPtr<i32> = MutRawPtr::new(alloc, 1, 0);
}

#[test]
fn new_stores_triple() {
    let mut bridge: Allocator<i32> = Allocator::new();
    let base: usize = bridge.allocate(5).unwrap();
    let ptr: ConstRawPtr<i32> = ConstRawPtr::new(base, 5, 0);
    assert!(!ptr.is_null());
    assert!(ptr.check_ptr());
    assert!(ptr.check_bounds());
    assert_eq!(ptr.check_offset(), 0);
    assert_eq!(ptr.check_memory_length(), 5);
    assert_eq!(ptr.memory_address(), base);
}

#[test]
fn new_at_interior_offset() {
    let mut bridge: Allocator<i32> = Allocator::new();
    let base: usize = bridge.allocate(5).unwrap();
    let ptr: ConstRawPtr<i32> = ConstRawPtr::new(base + 2 * 4, 5, 2);
    assert_eq!(ptr.check_offset(), 2);
    assert_eq!(ptr.memory_address(), base + 8);
}

#[test]
fn nullptr_is_inert() {
    let bridge: Allocator<i32> = Allocator::new();
    let mut ptr: ConstRawPtr<i32> = ConstRawPtr::nullptr();
    assert!(ptr.is_null());
    assert!(!ptr.check_ptr());
    assert!(!ptr.check_bounds());
    assert_eq!(ptr.memory_address(), 0);
    assert_eq!(ptr.check_offset(), 0);
    assert_eq!(ptr.check_memory_length(), 0);
    assert!(ptr.access(&bridge).is_none());
    assert!(ptr.change_offset(0).is_none());
    assert!(ptr.release_ptr(&bridge).is_none());
    assert!(ptr.cast_ptr::<u8>().is_none());
}

#[test]
fn mut_nullptr_is_inert() {
    let mut bridge: Allocator<i32> = Allocator::new();
    let mut ptr: MutRawPtr<i32> = MutRawPtr::nullptr();
    assert!(ptr.is_null());
    assert!(!ptr.check_ptr());
    assert!(ptr.write_ptr(&mut bridge, 3).is_none());
    assert!(ptr.cast_ptr::<u8>().is_none());
}

#[test]
fn change_offset_round_trip() {
    let mut bridge: Allocator<i32> = Allocator::new();
    let data = vec![1, 2, 3, 4, 5];
    let mut ptr: ConstRawPtr<i32> = ConstRawPtr::c_malloc(&mut bridge, data, 5, 0).unwrap();
    let start = ptr.memory_address();
    ptr.change_offset(3).unwrap();
    assert_eq!(ptr.check_offset(), 3);
    assert_eq!(ptr.memory_address(), start + 3 * 4);
    assert_eq!(ptr.access(&bridge), Some(4));
    ptr.change_offset(-3).unwrap();
    assert_eq!(ptr.check_offset(), 0);
    assert_eq!(ptr.memory_address(), start);
    assert_eq!(ptr.access(&bridge), Some(1));
}

#[test]
fn change_offset_out_of_bounds_is_rejected() {
    let mut bridge: Allocator<i32> = Allocator::new();
    let data = vec![1, 2, 3, 4, 5];
    let mut ptr: MutRawPtr<i32> = MutRawPtr::c_malloc(&mut bridge, data, 5, 0).unwrap();
    let start = ptr.memory_address();
    assert!(ptr.change_offset(5).is_none());
    assert!(ptr.change_offset(-1).is_none());
    assert_eq!(ptr.check_offset(), 0);
    assert_eq!(ptr.memory_address(), start);
    assert!(ptr.change_offset(4).is_some());
    assert_eq!(ptr.check_offset(), 4);
}

#[test]
fn write_then_access_returns_written_value() {
    let mut bridge: Allocator<i32> = Allocator::new();
    let mut ptr: MutRawPtr<i32> = MutRawPtr::c_malloc(&mut bridge, vec![0], 1, 0).unwrap();
    ptr.write_ptr(&mut bridge, 42).unwrap();
    assert_eq!(ptr.access(&bridge), Some(42));
}

#[test]
fn release_nulls_and_later_cleanup_frees_nothing() {
    let mut bridge: Allocator<i32> = Allocator::new();
    let mut ptr: MutRawPtr<i32> = MutRawPtr::c_malloc(&mut bridge, vec![7], 1, 0).unwrap();
    let addr = ptr.memory_address();
    assert_eq!(bridge.allocation_info(), 1);
    assert_eq!(ptr.release_ptr(&bridge), Some(7));
    assert!(ptr.is_null());
    ptr.manual_drop(&mut bridge);
    assert_eq!(bridge.allocation_info(), 1);
    bridge.deallocate(addr);
    assert_eq!(bridge.allocation_info(), 0);
    bridge.deallocate(addr);
    assert_eq!(bridge.allocation_info(), 0);
}

#[test]
fn cast_preserves_address() {
    let mut bridge: Allocator<i32> = Allocator::new();
    let ptr: ConstRawPtr<i32> = ConstRawPtr::c_malloc(&mut bridge, vec![1, 2], 2, 1).unwrap();
    let cast: ConstRawPtr<u8> = ptr.cast_ptr::<u8>().unwrap();
    assert_eq!(cast.memory_address(), ptr.memory_address());
    assert_eq!(cast.check_offset(), ptr.check_offset());
    assert_eq!(cast.check_memory_length(), ptr.check_memory_length());
    let mut mptr: MutRawPtr<i32> = MutRawPtr::c_malloc(&mut bridge, vec![1], 1, 0).unwrap();
    let mcast: MutRawPtr<u16> = mptr.cast_ptr::<u16>().unwrap();
    assert_eq!(mcast.memory_address(), mptr.memory_address());
    mptr.set_null();
    assert!(mptr.cast_ptr::<u16>().is_none());
}

#[test]
fn cast_to_misaligned_type_blocks_access() {
    let mut bridge: Allocator<u8> = Allocator::new();
    let mut ptr: MutRawPtr<u8> = MutRawPtr::c_malloc(&mut bridge, vec![1, 2, 3, 4, 5, 6, 7, 8], 8, 0).unwrap();
    ptr.change_offset(1).unwrap();
    assert!(ptr.memory_address() % 4 != 0);
    let cast: MutRawPtr<u32> = ptr.cast_ptr::<u32>().unwrap();
    assert!(!cast.check_ptr());
    let mut cast = cast;
    let mut bridge32: Allocator<u32> = Allocator::new();
    assert!(cast.access(&bridge32).is_none());
    assert!(cast.write_ptr(&mut bridge32, 9).is_none());
}

#[test]
fn five_element_block_scenario() {
    let mut bridge: Allocator<i32> = Allocator::new();
    let data = vec![0, 0, 0, 0, 0];
    let mut ptr: MutRawPtr<i32> = MutRawPtr::c_malloc(&mut bridge, data, 5, 0).unwrap();
    for i in 0..5 {
        if i > 0 {
            ptr.change_offset(1).unwrap();
        }
        ptr.write_ptr(&mut bridge, 100).unwrap();
        assert_eq!(ptr.access(&bridge), Some(100));
    }
    ptr.change_offset(-4).unwrap();
    for i in 0..5 {
        if i > 0 {
            ptr.change_offset(1).unwrap();
        }
        assert_eq!(ptr.access(&bridge), Some(100));
    }
}

#[test]
fn allocator_edge_requests_have_defined_outcomes() {
    let mut bridge: Allocator<i32> = Allocator::new();
    let base = bridge.allocate(0).unwrap();
    assert!(base != 0);
    assert_eq!(bridge.allocation_info(), 1);
    assert!(bridge.read_cell(base, 0).is_none());
    assert!(bridge.allocate(usize::MAX).is_none());
    assert_eq!(bridge.allocation_info(), 1);
    bridge.deallocate(0);
    assert_eq!(bridge.allocation_info(), 1);
}

#[test]
fn aliases_never_double_free() {
    let mut bridge: Allocator<i32> = Allocator::new();
    let ptr: MutRawPtr<i32> = MutRawPtr::c_malloc(&mut bridge, vec![5], 1, 0).unwrap();
    let alias_a: ConstRawPtr<i32> = ptr.as_const();
    let alias_b: ConstRawPtr<i32> = ptr.as_const();
    assert_eq!(bridge.allocation_info(), 1);
    alias_a.manual_drop(&mut bridge);
    assert_eq!(bridge.allocation_info(), 1);
    ptr.manual_drop(&mut bridge);
    assert_eq!(bridge.allocation_info(), 0);
    alias_b.manual_drop(&mut bridge);
    assert_eq!(bridge.allocation_info(), 0);
}

#[test]
fn as_mut_aliases_share_the_block() {
    let mut bridge: Allocator<i32> = Allocator::new();
    let ptr: ConstRawPtr<i32> = ConstRawPtr::c_malloc(&mut bridge, vec![3], 1, 0).unwrap();
    let mut alias: MutRawPtr<i32> = ptr.as_mut();
    assert_eq!(alias.memory_address(), ptr.memory_address());
    alias.write_ptr(&mut bridge, 11).unwrap();
    assert_eq!(ptr.access(&bridge), Some(11));
    alias.manual_drop(&mut bridge);
    assert_eq!(bridge.allocation_info(), 1);
    ptr.manual_drop(&mut bridge);
    assert_eq!(bridge.allocation_info(), 0);
}

#[test]
fn change_memory_length_checks_bounds() {
    let mut bridge: Allocator<i32> = Allocator::new();
    let mut ptr: MutRawPtr<i32> = MutRawPtr::c_malloc(&mut bridge, vec![1, 2, 3], 3, 2).unwrap();
    assert!(ptr.change_memory_length(0).is_none());
    assert!(ptr.change_memory_length(2).is_none());
    assert_eq!(ptr.check_memory_length(), 3);
    assert!(ptr.change_memory_length(10).is_some());
    assert_eq!(ptr.check_memory_length(), 10);
    let mut cptr: ConstRawPtr<i32> = ConstRawPtr::c_malloc(&mut bridge, vec![1], 1, 0).unwrap();
    assert!(cptr.change_memory_length(0).is_none());
    assert!(cptr.change_memory_length(4).is_some());
    assert_eq!(cptr.check_memory_length(), 4);
}

#[test]
fn set_null_invalidates_without_freeing() {
    let mut bridge: Allocator<i32> = Allocator::new();
    let mut ptr: MutRawPtr<i32> = MutRawPtr::c_malloc(&mut bridge, vec![9], 1, 0).unwrap();
    ptr.set_null();
    assert!(ptr.is_null());
    assert_eq!(ptr.check_offset(), 0);
    assert_eq!(ptr.check_memory_length(), 0);
    assert_eq!(bridge.allocation_info(), 1);
    ptr.manual_drop(&mut bridge);
    assert_eq!(bridge.allocation_info(), 1);
}

#[test]
fn size_of_reports_element_size() {
    assert_eq!(ConstRawPtr::<i32>::size_of(), 4);
    assert_eq!(ConstRawPtr::<u8>::size_of(), 1);
    let ptr: MutRawPtr<i64> = MutRawPtr::nullptr();
    assert_eq!(ptr.size_of(), 8);
}

#[test]
fn ref_const_borrows_current_element() {
    let mut bridge: Allocator<i32> = Allocator::new();
    let mut ptr: MutRawPtr<i32> = MutRawPtr::c_malloc(&mut bridge, vec![10, 20], 2, 0).unwrap();
    assert_eq!(ptr.ref_const(&bridge), Some(&10));
    ptr.change_offset(1).unwrap();
    assert_eq!(ptr.ref_const(&bridge), Some(&20));
    let cptr: ConstRawPtr<i32> = ptr.as_const();
    assert_eq!(cptr.ref_const(&bridge), Some(&20));
}

#[test]
fn uninitialized_cell_is_never_read() {
    let mut bridge: Allocator<i32> = Allocator::new();
    let mut ptr: MutRawPtr<i32> = MutRawPtr::c_malloc(&mut bridge, vec![1, 2], 3, 0).unwrap();
    ptr.change_offset(2).unwrap();
    assert!(ptr.access(&bridge).is_none());
    assert!(ptr.release_ptr(&bridge).is_none());
    assert!(!ptr.is_null());
    ptr.write_ptr(&mut bridge, 30).unwrap();
    assert_eq!(ptr.access(&bridge), Some(30));
}

#[test]
fn dangling_handle_is_never_dereferenced() {
    let mut bridge: Allocator<i32> = Allocator::new();
    let mut ptr: MutRawPtr<i32> = MutRawPtr::c_malloc(&mut bridge, vec![4], 1, 0).unwrap();
    let addr = ptr.memory_address();
    bridge.deallocate(addr);
    assert!(ptr.check_ptr());
    assert!(ptr.access(&bridge).is_none());
    assert!(ptr.write_ptr(&mut bridge, 1).is_none());
    assert!(ptr.release_ptr(&bridge).is_none());
    ptr.manual_drop(&mut bridge);
    assert_eq!(bridge.allocation_info(), 0);
}

#[test]
fn c_malloc_rejects_inconsistent_arguments() {
    let mut bridge: Allocator<i32> = Allocator::new();
    assert!(ConstRawPtr::<i32>::c_malloc(&mut bridge, vec![1], 0, 0).is_none());
    assert!(ConstRawPtr::<i32>::c_malloc(&mut bridge, vec![1], 1, 1).is_none());
    assert!(ConstRawPtr::<i32>::c_malloc(&mut bridge, vec![], 1, 0).is_none());
    assert!(ConstRawPtr::<i32>::c_malloc(&mut bridge, vec![1, 2], 1, 0).is_none());
    assert!(MutRawPtr::<i32>::c_malloc(&mut bridge, vec![1, 2], 1, 0).is_none());
    assert_eq!(bridge.allocation_info(), 0);
}

#[test]
fn addresses_are_not_reused_after_free() {
    let mut bridge: Allocator<i32> = Allocator::new();
    let first = bridge.allocate(2).unwrap();
    bridge.deallocate(first);
    let second = bridge.allocate(2).unwrap();
    assert!(second != first);
    assert_eq!(bridge.allocation_info(), 1);
}
