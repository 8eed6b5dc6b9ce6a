use ysos::memory::frames::FrameAllocator;
use ysos::memory::paging::map_range;
use ysos::memory::paging::PageTable;
use ysos::proc::vm::heap::Heap;
use ysos::proc::vm::heap::HEAP_SIZE;
use ysos::proc::vm::heap::HEAP_START;

#[test]
fn new_heap_is_empty() {
    let mut table = PageTable::new();
    let mut frames = FrameAllocator::new(16);
    let mut heap = Heap::empty();
    assert_eq!(heap.start(), HEAP_START);
    assert_eq!(heap.memory_usage(), 0);
    assert_eq!(heap.brk(None, &mut table, &mut frames), Some(HEAP_START));
    assert_eq!(table.mapped_pages(), 0);
}

#[test]
fn brk_then_query_returns_the_new_end() {
    let mut table = PageTable::new();
    let mut frames = FrameAllocator::new(16);
    let mut heap = Heap::empty();
    let ends: Vec<u64> = vec![
        HEAP_START + 1,
        HEAP_START + 4096,
        HEAP_START + 4097,
        HEAP_START + 3 * 4096 + 17,
        HEAP_START + 8,
        HEAP_START,
    ];
    for end in ends {
        assert_eq!(heap.brk(Some(end), &mut table, &mut frames), Some(end));
        assert_eq!(heap.brk(None, &mut table, &mut frames), Some(end));
        assert_eq!(heap.memory_usage(), end - HEAP_START);
    }
    assert_eq!(table.mapped_pages(), 0);
    assert_eq!(frames.frames_available(), 16);
}

#[test]
fn brk_maps_the_pages_that_hold_the_heap() {
    let mut table = PageTable::new();
    let mut frames = FrameAllocator::new(16);
    let mut heap = Heap::empty();
    let base_page = HEAP_START / 4096;
    assert_eq!(heap.brk(Some(HEAP_START + 8 * 1024 - 8), &mut table, &mut frames), Some(HEAP_START + 8 * 1024 - 8));
    assert!(table.is_mapped(base_page));
    assert!(table.is_mapped(base_page + 1));
    assert!(!table.is_mapped(base_page + 2));
    assert!(table.is_user_accessible(base_page));
    assert_eq!(frames.frames_available(), 14);
    assert!(table.write_byte(HEAP_START, 42));
    assert!(table.write_byte(HEAP_START + 8 * 1024 - 9, 43));
    assert_eq!(table.read_byte(HEAP_START), Some(42));
    assert_eq!(heap.brk(Some(HEAP_START + 4096), &mut table, &mut frames), Some(HEAP_START + 4096));
    assert!(table.is_mapped(base_page));
    assert!(!table.is_mapped(base_page + 1));
    assert_eq!(frames.frames_available(), 15);
    assert_eq!(heap.brk(Some(HEAP_START), &mut table, &mut frames), Some(HEAP_START));
    assert!(!table.is_mapped(base_page));
    assert_eq!(frames.frames_available(), 16);
}

#[test]
fn brk_out_of_bounds_changes_nothing() {
    let mut table = PageTable::new();
    let mut frames = FrameAllocator::new(16);
    let mut heap = Heap::empty();
    assert_eq!(heap.brk(Some(HEAP_START + 100), &mut table, &mut frames), Some(HEAP_START + 100));
    assert_eq!(heap.brk(Some(HEAP_START - 1), &mut table, &mut frames), None);
    assert_eq!(heap.brk(Some(HEAP_START + HEAP_SIZE + 1), &mut table, &mut frames), None);
    assert_eq!(heap.brk(Some(0), &mut table, &mut frames), None);
    assert_eq!(heap.brk(Some(u64::MAX), &mut table, &mut frames), None);
    assert_eq!(heap.brk(None, &mut table, &mut frames), Some(HEAP_START + 100));
    assert_eq!(table.mapped_pages(), 1);
}

#[test]
fn brk_reaches_the_upper_bound() {
    let mut table = PageTable::new();
    let mut frames = FrameAllocator::new(0x10_0000);
    let mut heap = Heap::empty();
    let top = HEAP_START + HEAP_SIZE;
    assert_eq!(heap.brk(Some(top), &mut table, &mut frames), Some(top));
    assert_eq!(heap.brk(None, &mut table, &mut frames), Some(top));
    assert_eq!(table.mapped_pages(), 0x10_0000);
    assert_eq!(frames.frames_available(), 0);
    assert_eq!(heap.brk(Some(HEAP_START), &mut table, &mut frames), Some(HEAP_START));
    assert_eq!(table.mapped_pages(), 0);
    assert_eq!(frames.frames_available(), 0x10_0000);
}

#[test]
fn brk_fails_without_frames_or_free_pages() {
    let mut table = PageTable::new();
    let mut frames = FrameAllocator::new(2);
    let mut heap = Heap::empty();
    assert_eq!(heap.brk(Some(HEAP_START + 3 * 4096), &mut table, &mut frames), None);
    assert_eq!(heap.brk(None, &mut table, &mut frames), Some(HEAP_START));
    assert_eq!(table.mapped_pages(), 0);
    map_range(HEAP_START + 4096, 1, &mut table, &mut frames, false).unwrap();
    assert_eq!(heap.brk(Some(HEAP_START + 2 * 4096), &mut table, &mut frames), None);
    assert_eq!(heap.brk(Some(HEAP_START + 4096), &mut table, &mut frames), Some(HEAP_START + 4096));
}

#[test]
fn clean_up_empties_the_heap() {
    let mut table = PageTable::new();
    let mut frames = FrameAllocator::new(8);
    let mut heap = Heap::empty();
    assert_eq!(heap.clean_up(&mut table, &mut frames), Ok(()));
    heap.brk(Some(HEAP_START + 5 * 4096), &mut table, &mut frames).unwrap();
    assert_eq!(frames.frames_available(), 3);
    assert_eq!(heap.clean_up(&mut table, &mut frames), Ok(()));
    assert_eq!(heap.memory_usage(), 0);
    assert_eq!(table.mapped_pages(), 0);
    assert_eq!(frames.frames_available(), 8);
    assert_eq!(heap.clean_up(&mut table, &mut frames), Ok(()));
}
