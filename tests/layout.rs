use mem_align::{page_aligned, round_up, MemAlign, PAGE_SIZE};

#[allow(dead_code)]
struct TestStruct {
    data: [u8; 18],
}

#[test]
fn test_roundup() {
    assert!(round_up(1, 4096) == 4096);
    assert!(round_up(4095, 4096) == 4096);
    assert!(round_up(4096, 4096) == 4096);
    assert!(round_up(4097, 4096) == 2 * 4096);
    assert!(round_up(2 * 4096 + 1, 4096) == 3 * 4096);
}

#[test]
fn test_paged_alloc() {
    let element_size: usize = std::mem::size_of::<TestStruct>();
    assert!(element_size == 18);
    let count = 10;
    let alloc = MemAlign::<TestStruct>::new(count);
    assert!(alloc.capacity() == 227);
    assert!(alloc.remainder() == 10);
    assert!(alloc.byte_size() == 4096);
    assert!(alloc.is_valid());
}

#[test]
fn round_up_keeps_zero() {
    assert_eq!(round_up(0, 4096), 0);
    assert_eq!(round_up(0, 1), 0);
    assert_eq!(round_up(0, 7), 0);
    assert_eq!(page_aligned(0), 0);
}

#[test]
fn round_up_gives_multiples() {
    for to in [1usize, 2, 3, 7, 64, 4096] {
        for x in 1usize..200 {
            let r = round_up(x, to);
            assert_eq!(r % to, 0);
            assert!(r >= x && r < x + to);
        }
    }
    assert_eq!(round_up(10, 3), 12);
    assert_eq!(round_up(12, 3), 12);
    assert_eq!(round_up(13, 1), 13);
}

#[test]
fn round_up_twice_is_round_up_once() {
    for to in [1usize, 5, 16, 4096] {
        for x in 0usize..300 {
            let once = round_up(x, to);
            assert_eq!(round_up(once, to), once);
        }
    }
    assert_eq!(round_up(round_up(4097, 4096), 4096), 8192);
}

#[test]
fn page_aligned_is_round_up_to_a_page() {
    assert_eq!(PAGE_SIZE, 4096);
    for size in [0usize, 1, 4095, 4096, 4097, 8192, 8193, 100_000] {
        assert_eq!(page_aligned(size), round_up(size, 4096));
    }
    assert_eq!(page_aligned(1), 4096);
    assert_eq!(page_aligned(8193), 12288);
}

#[test]
fn descriptor_exact_page_has_no_slack() {
    let a = MemAlign::<u32>::new(1024);
    assert_eq!(MemAlign::<u32>::element_size(), 4);
    assert_eq!(a.byte_size(), 4096);
    assert_eq!(a.capacity(), 1024);
    assert_eq!(a.remainder(), 0);
    assert!(a.is_valid());
}

#[test]
fn descriptor_one_more_element_takes_another_page() {
    let a = MemAlign::<u32>::new(1025);
    assert_eq!(a.byte_size(), 8192);
    assert_eq!(a.capacity(), 2048);
    assert_eq!(a.remainder(), 0);
    assert!(a.is_valid());
}

#[test]
fn descriptor_element_larger_than_a_page() {
    let a = MemAlign::<[u8; 4097]>::new(1);
    assert_eq!(MemAlign::<[u8; 4097]>::element_size(), 4097);
    assert_eq!(a.byte_size(), 8192);
    assert_eq!(a.capacity(), 1);
    assert_eq!(a.remainder(), 4095);
    assert!(a.is_valid());
}

#[test]
fn descriptor_splits_bytes_exactly() {
    for count in 1usize..600 {
        let a = MemAlign::<[u8; 18]>::new(count);
        assert!(a.is_valid());
        assert_eq!(a.capacity() * 18 + a.remainder(), a.byte_size());
        assert!(a.remainder() < 18);
        assert_eq!(a.byte_size() % 4096, 0);
        assert!(a.byte_size() > 0);
        assert!(a.capacity() >= count);
    }
    for count in 1usize..300 {
        let a = MemAlign::<[u8; 3000]>::new(count);
        assert!(a.is_valid());
        assert_eq!(a.capacity() * 3000 + a.remainder(), a.byte_size());
    }
}

#[test]
fn descriptor_copies_are_equal() {
    let a = MemAlign::<u64>::new(3);
    let b = a;
    let c = a.clone();
    assert_eq!(a, b);
    assert_eq!(a, c);
    assert_eq!(c.byte_size(), 4096);
    assert_eq!(c.capacity(), 512);
    assert_eq!(c.remainder(), 0);
}
