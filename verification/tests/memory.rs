use honeyos::memory::{string_at, LinearMemory, Memory, MemoryError, MemoryRegion, MAX_PAGES, PAGE_SIZE};

fn tiles(memory: &Memory) -> bool {
    let regions = memory.regions();
    let mut at = 0u32;
    for region in regions.iter() {
        if region.start != at || region.start >= region.end {
            return false;
        }
        at = region.end;
    }
    at <= memory.byte_length()
}

#[test]
fn region_size_is_end_minus_start() {
    let region = MemoryRegion { start: 16, end: 48, free: true };
    assert_eq!(region.size(), 32);
}

#[test]
fn split_cuts_first_piece_and_keeps_rest_free() {
    let region = MemoryRegion { start: 100, end: 400, free: true };
    let (first, second) = region.split(120);
    assert_eq!(first, MemoryRegion { start: 100, end: 220, free: false });
    assert_eq!(second, MemoryRegion { start: 220, end: 400, free: true });
    assert_eq!(first.size() + second.size(), region.size());
}

#[test]
fn new_memory_is_zeroed_pages_without_regions() {
    let memory = Memory::new(2, Some(4), true).unwrap();
    assert_eq!(memory.byte_length(), 2 * PAGE_SIZE);
    assert_eq!(memory.maximum(), Some(4));
    assert!(memory.regions().is_empty());
    assert!(memory.inner().is_shared());
    assert_eq!(memory.read(0, 8), vec![0u8; 8]);
    assert_eq!(memory.read(2 * PAGE_SIZE - 4, 4), vec![0u8; 4]);
}

#[test]
fn new_memory_refuses_what_cannot_be_reserved() {
    assert_eq!(Memory::new(MAX_PAGES + 1, None, false).err(), Some(MemoryError::TooLarge));
    assert_eq!(Memory::new(3, Some(2), false).err(), Some(MemoryError::ExceedsMaximum));
    assert_eq!(Memory::new(MAX_PAGES + 1, Some(2), false).err(), Some(MemoryError::TooLarge));
    assert!(Memory::new(2, Some(2), false).is_ok());
    assert!(Memory::new(0, Some(0), false).is_ok());
}

#[test]
fn memory_error_messages() {
    assert_eq!(MemoryError::TooLarge.message(), "initial size is beyond the address space");
    assert_eq!(MemoryError::ExceedsMaximum.message(), "initial size is beyond the maximum size");
}

#[test]
fn growth_to_the_cap_then_failure() {
    let mut memory = Memory::new(1, Some(2), false).unwrap();
    let ptr = memory.allocate(70000);
    assert!(ptr.is_some());
    assert_eq!(memory.byte_length(), 2 * PAGE_SIZE);
    let regions_before: Vec<MemoryRegion> = memory.regions().clone();
    assert_eq!(memory.allocate(1), None);
    assert_eq!(memory.byte_length(), 2 * PAGE_SIZE);
    assert_eq!(memory.regions(), &regions_before);
}

#[test]
fn freed_region_is_used_again() {
    let mut memory = Memory::new(1, None, false).unwrap();
    let p = memory.allocate(100).unwrap();
    let length = memory.byte_length();
    assert_eq!(memory.free(p), Some(()));
    assert_eq!(memory.allocate(100), Some(p));
    assert_eq!(memory.byte_length(), length);
}

#[test]
fn allocate_takes_the_first_region_that_fits() {
    let mut memory = Memory::new(0, None, false).unwrap();
    let a = memory.allocate(PAGE_SIZE).unwrap();
    let b = memory.allocate(3 * PAGE_SIZE).unwrap();
    let c = memory.allocate(2 * PAGE_SIZE).unwrap();
    assert_eq!((a, b, c), (0, PAGE_SIZE, 4 * PAGE_SIZE));
    assert_eq!(memory.byte_length(), 6 * PAGE_SIZE);
    memory.free(b).unwrap();
    memory.free(c).unwrap();
    // Both free regions fit; the one at the lower address is taken and split.
    assert_eq!(memory.allocate(2 * PAGE_SIZE), Some(b));
    assert_eq!(
        memory.regions(),
        &vec![
            MemoryRegion { start: 0, end: PAGE_SIZE, free: false },
            MemoryRegion { start: PAGE_SIZE, end: 3 * PAGE_SIZE, free: false },
            MemoryRegion { start: 3 * PAGE_SIZE, end: 4 * PAGE_SIZE, free: true },
            MemoryRegion { start: 4 * PAGE_SIZE, end: 6 * PAGE_SIZE, free: true },
        ]
    );
    assert!(tiles(&memory));
    // An exact fit is taken whole.
    assert_eq!(memory.allocate(PAGE_SIZE), Some(3 * PAGE_SIZE));
    assert_eq!(memory.regions().len(), 4);
    assert_eq!(memory.byte_length(), 6 * PAGE_SIZE);
}

#[test]
fn allocate_of_nothing_is_served_as_one_byte() {
    let mut memory = Memory::new(1, None, false).unwrap();
    assert_eq!(memory.allocate(0), Some(0));
    assert_eq!(memory.regions(), &vec![MemoryRegion { start: 0, end: PAGE_SIZE, free: false }]);
    memory.free(0).unwrap();
    assert_eq!(memory.allocate(0), Some(0));
    assert_eq!(
        memory.regions(),
        &vec![
            MemoryRegion { start: 0, end: 1, free: false },
            MemoryRegion { start: 1, end: PAGE_SIZE, free: true },
        ]
    );
}

#[test]
fn initial_pages_are_used_before_the_buffer_grows() {
    let mut memory = Memory::new(2, None, false).unwrap();
    assert_eq!(memory.allocate(10), Some(0));
    assert_eq!(memory.byte_length(), 2 * PAGE_SIZE);
    assert_eq!(memory.allocate(10), Some(PAGE_SIZE));
    assert_eq!(memory.byte_length(), 2 * PAGE_SIZE);
    assert_eq!(memory.allocate(10), Some(2 * PAGE_SIZE));
    assert_eq!(memory.byte_length(), 3 * PAGE_SIZE);
}

#[test]
fn buffer_length_never_shrinks_and_stays_whole_pages() {
    let mut memory = Memory::new(1, Some(8), false).unwrap();
    let mut last = memory.byte_length();
    let sizes = [1u32, 70000, 5, 65536, 200000, 3, 65537];
    let mut handed_out = Vec::new();
    for (step, size) in sizes.iter().enumerate() {
        if let Some(ptr) = memory.allocate(*size) {
            handed_out.push(ptr);
        }
        if step % 2 == 1 {
            if let Some(ptr) = handed_out.pop() {
                memory.free(ptr).unwrap();
            }
        }
        let now = memory.byte_length();
        assert!(now >= last);
        assert_eq!(now % PAGE_SIZE, 0);
        assert!(now <= 8 * PAGE_SIZE);
        assert!(tiles(&memory));
        last = now;
    }
}

#[test]
fn allocation_past_the_cap_fails_and_changes_nothing() {
    let mut memory = Memory::new(1, Some(3), false).unwrap();
    assert_eq!(memory.allocate(2 * PAGE_SIZE), Some(0));
    assert_eq!(memory.byte_length(), 2 * PAGE_SIZE);
    let regions: Vec<MemoryRegion> = memory.regions().clone();
    assert_eq!(memory.allocate(PAGE_SIZE + 1), None);
    assert_eq!(memory.byte_length(), 2 * PAGE_SIZE);
    assert_eq!(memory.regions(), &regions);
    assert_eq!(memory.allocate(PAGE_SIZE), Some(2 * PAGE_SIZE));
    assert_eq!(memory.byte_length(), 3 * PAGE_SIZE);
}

#[test]
fn allocation_past_the_address_space_fails() {
    let mut memory = Memory::new(0, None, false).unwrap();
    assert_eq!(memory.allocate(u32::MAX), None);
    assert_eq!(memory.byte_length(), 0);
    assert!(memory.regions().is_empty());
}

#[test]
fn double_free_is_refused() {
    let mut memory = Memory::new(1, None, false).unwrap();
    let a = memory.allocate(10).unwrap();
    let b = memory.allocate(10).unwrap();
    assert_eq!(memory.free(a), Some(()));
    let regions: Vec<MemoryRegion> = memory.regions().clone();
    assert_eq!(memory.free(a), None);
    assert_eq!(memory.regions(), &regions);
    assert!(!memory.regions()[1].free);
    assert_eq!(memory.regions()[1].start, b);
}

#[test]
fn free_of_an_address_that_starts_no_region_is_refused() {
    let mut memory = Memory::new(1, None, false).unwrap();
    assert_eq!(memory.free(0), None);
    let a = memory.allocate(10).unwrap();
    assert_eq!(memory.free(a + 1), None);
    assert!(!memory.regions()[0].free);
}

#[test]
fn write_then_read_gives_the_bytes_back() {
    let mut memory = Memory::new(1, None, false).unwrap();
    memory.write(10, &[1, 2, 3, 4]);
    assert_eq!(memory.read(10, 4), vec![1, 2, 3, 4]);
    assert_eq!(memory.read(8, 8), vec![0, 0, 1, 2, 3, 4, 0, 0]);
    memory.write(PAGE_SIZE - 2, &[9, 8]);
    assert_eq!(memory.read(PAGE_SIZE - 2, 2), vec![9, 8]);
    assert_eq!(memory.read(PAGE_SIZE, 0), Vec::<u8>::new());
}

#[test]
fn read_str_stops_at_the_zero_byte() {
    let mut memory = Memory::new(1, None, false).unwrap();
    memory.write(4, b"hello\0world\0");
    assert_eq!(memory.read_str(4), Some("hello".to_string()));
    assert_eq!(memory.read_str(6), Some("llo".to_string()));
    assert_eq!(memory.read_str(9), Some(String::new()));
    assert_eq!(memory.read_str(10), Some("world".to_string()));
}

#[test]
fn read_str_without_a_zero_byte_gives_nothing() {
    let mut memory = Memory::new(1, None, false).unwrap();
    let filled = vec![b'x'; PAGE_SIZE as usize];
    memory.write(0, &filled);
    assert_eq!(memory.read_str(0), None);
    assert_eq!(memory.read_str(PAGE_SIZE - 1), None);
    assert_eq!(memory.read_str(PAGE_SIZE), None);
    assert_eq!(memory.read_str(u32::MAX), None);
}

#[test]
fn read_str_replaces_what_is_not_utf8() {
    let mut memory = Memory::new(1, None, false).unwrap();
    memory.write(0, &[b'a', 0xff, b'b', 0]);
    assert_eq!(memory.read_str(0), Some("a\u{fffd}b".to_string()));
    memory.write(16, &[0xc3, 0xa9, 0]);
    assert_eq!(memory.read_str(16), Some("\u{e9}".to_string()));
}

#[test]
fn realloc_copies_and_keeps_the_old_block() {
    let mut memory = Memory::new(1, None, false).unwrap();
    let old = memory.allocate(PAGE_SIZE).unwrap();
    memory.write(old, &[5, 6, 7, 8]);
    let new = memory.realloc(old, 4).unwrap();
    assert_ne!(new, old);
    assert_eq!(memory.read(new, 4), vec![5, 6, 7, 8]);
    assert_eq!(memory.read(old, 4), vec![5, 6, 7, 8]);
    assert!(!memory.regions()[0].free);
    assert_eq!(memory.regions().len(), 2);
}

#[test]
fn realloc_that_cannot_allocate_changes_nothing() {
    let mut memory = Memory::new(1, Some(1), false).unwrap();
    let old = memory.allocate(10).unwrap();
    memory.write(old, &[1, 2, 3]);
    assert_eq!(memory.realloc(old, 20), None);
    assert_eq!(memory.regions().len(), 1);
    assert_eq!(memory.read(old, 3), vec![1, 2, 3]);
}

#[test]
fn realloc_copies_lowest_address_first() {
    let mut memory = Memory::new(1, None, false).unwrap();
    let a = memory.allocate(10).unwrap();
    memory.free(a).unwrap();
    let a = memory.allocate(2).unwrap();
    assert_eq!(a, 0);
    memory.write(0, &[1, 2, 0, 0, 0, 0]);
    // The new block lies right behind the old one: [2, 6).
    let b = memory.realloc(a, 4).unwrap();
    assert_eq!(b, 2);
    assert_eq!(memory.read(0, 6), vec![1, 2, 1, 2, 1, 2]);
}

#[test]
fn new_inner_keeps_regions_and_swaps_the_buffer() {
    let mut memory = Memory::new(1, Some(4), false).unwrap();
    let ptr = memory.allocate(100).unwrap();
    memory.write(ptr, &[7, 7, 7]);
    let mut other = LinearMemory::new(2, true).unwrap();
    other.set(&[1, 2, 3], 0);
    let twin = memory.new_inner(other);
    assert_eq!(twin.regions(), memory.regions());
    assert_eq!(twin.maximum(), Some(4));
    assert_eq!(twin.byte_length(), 2 * PAGE_SIZE);
    assert_eq!(twin.read(0, 3), vec![1, 2, 3]);
    assert!(twin.inner().is_shared());
    assert_eq!(memory.read(0, 3), vec![7, 7, 7]);
}

#[test]
fn linear_memory_grows_by_zeroed_pages() {
    let mut buffer = LinearMemory::new(1, false).unwrap();
    buffer.set_index(5, 42);
    assert_eq!(buffer.grow(2), Some(1));
    assert_eq!(buffer.pages(), 3);
    assert_eq!(buffer.byte_length(), 3 * PAGE_SIZE);
    assert_eq!(buffer.get_index(5), 42);
    assert_eq!(buffer.get_index(3 * PAGE_SIZE - 1), 0);
    assert_eq!(buffer.slice(4, 7), vec![0, 42, 0]);
    assert_eq!(buffer.grow(MAX_PAGES), None);
    assert_eq!(buffer.pages(), 3);
    assert!(LinearMemory::new(MAX_PAGES + 1, false).is_none());
}

#[test]
fn string_at_reads_from_plain_bytes() {
    assert_eq!(string_at(b"ab\0cd\0", 0), Some("ab".to_string()));
    assert_eq!(string_at(b"ab\0cd\0", 3), Some("cd".to_string()));
    assert_eq!(string_at(b"ab\0cd", 3), None);
    assert_eq!(string_at(b"\0", 0), Some(String::new()));
    assert_eq!(string_at(b"", 0), None);
    assert_eq!(string_at(b"abc\0", 9), None);
    assert_eq!(string_at(&[0xe2, 0x82, 0xac, 0, 0x80, 0], 0), Some("\u{20ac}".to_string()));
    assert_eq!(string_at(&[0xe2, 0x82, 0xac, 0, 0x80, 0], 4), Some("\u{fffd}".to_string()));
}
