use ysos::memory::frames::FrameAllocator;
use ysos::memory::paging::map_range;
use ysos::memory::paging::MapError;
use ysos::memory::paging::PageRange;
use ysos::memory::paging::PageTable;
use ysos::memory::paging::UnmapError;
use ysos::proc::vm::stack::Stack;
use ysos::proc::vm::stack::StackError;
use ysos::proc::vm::stack::KSTACK_INIT_BOT;
use ysos::proc::vm::stack::STACK_INIT_BOT;
use ysos::proc::vm::stack::STACK_INIT_TOP;
use ysos::proc::vm::stack::STACK_MAX;
use ysos::proc::vm::stack::STACK_MAX_PAGES;
use ysos::proc::vm::stack::STACK_MAX_SIZE;

const TOP_PAGE: u64 = 0x3_FFFF_FFFF;

fn fresh() -> (Stack, PageTable, FrameAllocator) {
    let mut table = PageTable::new();
    let mut frames = FrameAllocator::new(64);
    let mut stack = Stack::empty();
    stack.init(&mut table, &mut frames).unwrap();
    (stack, table, frames)
}

#[test]
fn stack_constants_fit_together() {
    assert_eq!(STACK_MAX_SIZE, STACK_MAX_PAGES * 4096);
    assert_eq!(STACK_INIT_BOT, STACK_MAX - 4096);
    assert_eq!(STACK_INIT_TOP, STACK_MAX - 8);
    assert_eq!(STACK_INIT_BOT / 4096, TOP_PAGE);
    assert_eq!(Stack::kstack().pages().start, KSTACK_INIT_BOT / 4096);
    assert_eq!(Stack::kstack().memory_usage(), 4 * 4096);
}

#[test]
fn init_maps_one_page_below_the_top() {
    let (stack, table, frames) = fresh();
    assert_eq!(stack.pages(), PageRange { start: TOP_PAGE, end: TOP_PAGE + 1 });
    assert_eq!(stack.memory_usage(), 4096);
    assert!(table.is_mapped(TOP_PAGE));
    assert!(table.is_user_accessible(TOP_PAGE));
    assert_eq!(table.mapped_pages(), 1);
    assert_eq!(frames.frames_available(), 63);
}

#[test]
fn init_fails_when_the_page_is_taken() {
    let mut table = PageTable::new();
    let mut frames = FrameAllocator::new(4);
    map_range(STACK_INIT_BOT, 1, &mut table, &mut frames, false).unwrap();
    let mut stack = Stack::empty();
    assert_eq!(stack.init(&mut table, &mut frames), Err(MapError::PageAlreadyMapped));
    assert_eq!(stack.memory_usage(), 0);
    let mut empty_table = PageTable::new();
    let mut none = FrameAllocator::new(0);
    assert_eq!(stack.init(&mut empty_table, &mut none), Err(MapError::FrameAllocationFailed));
}

#[test]
fn fault_below_the_stack_maps_the_missing_pages() {
    let (mut stack, mut table, mut frames) = fresh();
    let addr = STACK_INIT_BOT - 3 * 4096 - 100;
    assert!(stack.handle_page_fault(addr, &mut table, &mut frames, true));
    assert_eq!(stack.pages(), PageRange { start: TOP_PAGE - 4, end: TOP_PAGE + 1 });
    assert_eq!(stack.memory_usage(), 5 * 4096);
    for page in (TOP_PAGE - 4)..=TOP_PAGE {
        assert!(table.is_mapped(page));
        assert!(table.is_user_accessible(page));
    }
    assert!(!table.is_mapped(TOP_PAGE - 5));
    assert!(!table.is_mapped(TOP_PAGE + 1));
    assert_eq!(table.mapped_pages(), 5);
    assert_eq!(frames.frames_available(), 59);
    assert_eq!(table.read_byte(addr), Some(0));
}

#[test]
fn kernel_faults_map_pages_without_user_access() {
    let (mut stack, mut table, mut frames) = fresh();
    assert!(stack.handle_page_fault(STACK_INIT_BOT - 1, &mut table, &mut frames, false));
    assert!(table.is_mapped(TOP_PAGE - 1));
    assert!(!table.is_user_accessible(TOP_PAGE - 1));
}

#[test]
fn fault_outside_the_slot_is_refused() {
    let (mut stack, mut table, mut frames) = fresh();
    let slot_start = STACK_MAX - STACK_MAX_SIZE;
    assert!(!stack.handle_page_fault(slot_start - 1, &mut table, &mut frames, true));
    assert!(!stack.handle_page_fault(STACK_MAX, &mut table, &mut frames, true));
    assert!(!stack.handle_page_fault(0x1000, &mut table, &mut frames, true));
    assert!(!stack.handle_page_fault(0x9000_0000_0000, &mut table, &mut frames, true));
    assert_eq!(stack.pages(), PageRange { start: TOP_PAGE, end: TOP_PAGE + 1 });
    assert_eq!(table.mapped_pages(), 1);
    assert_eq!(frames.frames_available(), 63);
}

#[test]
fn fault_at_the_slot_boundary_is_accepted() {
    let mut table = PageTable::new();
    let mut frames = FrameAllocator::new(STACK_MAX_PAGES);
    let mut stack = Stack::empty();
    stack.init(&mut table, &mut frames).unwrap();
    let slot_start = STACK_MAX - STACK_MAX_SIZE;
    assert!(stack.handle_page_fault(slot_start, &mut table, &mut frames, true));
    assert_eq!(stack.pages().start, slot_start / 4096);
    assert_eq!(stack.memory_usage(), STACK_MAX_SIZE);
    assert!(!table.is_mapped(slot_start / 4096 - 1));
    assert_eq!(frames.frames_available(), 0);
}

#[test]
fn fault_inside_the_mapped_range_changes_nothing() {
    let (mut stack, mut table, mut frames) = fresh();
    assert!(stack.handle_page_fault(STACK_INIT_TOP, &mut table, &mut frames, true));
    assert_eq!(stack.pages(), PageRange { start: TOP_PAGE, end: TOP_PAGE + 1 });
    assert_eq!(frames.frames_available(), 63);
}

#[test]
fn fault_fails_without_frames() {
    let mut table = PageTable::new();
    let mut frames = FrameAllocator::new(3);
    let mut stack = Stack::empty();
    stack.init(&mut table, &mut frames).unwrap();
    assert!(!stack.handle_page_fault(STACK_INIT_BOT - 3 * 4096, &mut table, &mut frames, true));
    assert_eq!(stack.pages(), PageRange { start: TOP_PAGE, end: TOP_PAGE + 1 });
    assert_eq!(table.mapped_pages(), 1);
    assert!(stack.handle_page_fault(STACK_INIT_BOT - 2 * 4096, &mut table, &mut frames, true));
    assert_eq!(frames.frames_available(), 0);
}

#[test]
fn fork_copies_the_stack_into_the_next_slot() {
    let (mut stack, mut table, mut frames) = fresh();
    assert!(stack.handle_page_fault(STACK_INIT_BOT - 4096, &mut table, &mut frames, true));
    assert!(table.write_byte(STACK_INIT_TOP, 0x11));
    assert!(table.write_byte(STACK_INIT_BOT - 4096, 0x22));
    let child = stack.fork(&mut table, &mut frames, 1).unwrap();
    assert_eq!(
        child.pages(),
        PageRange { start: TOP_PAGE - 1 - STACK_MAX_PAGES, end: TOP_PAGE + 1 - STACK_MAX_PAGES }
    );
    assert_eq!(child.memory_usage(), 2 * 4096);
    assert_eq!(frames.frames_available(), 60);
    assert_eq!(table.read_byte(STACK_INIT_TOP - STACK_MAX_SIZE), Some(0x11));
    assert_eq!(table.read_byte(STACK_INIT_BOT - 4096 - STACK_MAX_SIZE), Some(0x22));
    assert_eq!(child.offset(&stack), 0u64.wrapping_sub(STACK_MAX_SIZE));
    assert_eq!(stack.offset(&child), STACK_MAX_SIZE);
}

#[test]
fn forked_stacks_are_independent() {
    let (stack, mut table, mut frames) = fresh();
    assert!(table.write_byte(STACK_INIT_TOP, 1));
    let child = stack.fork(&mut table, &mut frames, 1).unwrap();
    let child_top = STACK_INIT_TOP.wrapping_add(child.offset(&stack));
    assert_eq!(table.read_byte(child_top), Some(1));
    assert!(table.write_byte(child_top, 2));
    assert_eq!(table.read_byte(STACK_INIT_TOP), Some(1));
    assert!(table.write_byte(STACK_INIT_TOP, 3));
    assert_eq!(table.read_byte(child_top), Some(2));
}

#[test]
fn fork_probes_past_slots_that_are_taken() {
    let (stack, mut table, mut frames) = fresh();
    let first = stack.fork(&mut table, &mut frames, 1).unwrap();
    let second = stack.fork(&mut table, &mut frames, 1).unwrap();
    let third = stack.fork(&mut table, &mut frames, 1).unwrap();
    assert_eq!(first.pages().start, TOP_PAGE - STACK_MAX_PAGES);
    assert_eq!(second.pages().start, TOP_PAGE - 2 * STACK_MAX_PAGES);
    assert_eq!(third.pages().start, TOP_PAGE - 3 * STACK_MAX_PAGES);
    let far = stack.fork(&mut table, &mut frames, 7).unwrap();
    assert_eq!(far.pages().start, TOP_PAGE - 7 * STACK_MAX_PAGES);
}

#[test]
fn fork_reports_why_it_fails() {
    let (stack, mut table, mut frames) = fresh();
    assert_eq!(stack.fork(&mut table, &mut frames, 0x4000).err(), Some(StackError::NoSlot));
    let mut few = FrameAllocator::new(0);
    assert_eq!(stack.fork(&mut table, &mut few, 1).err(), Some(StackError::OutOfFrames));
    let mut empty_table = PageTable::new();
    assert_eq!(stack.fork(&mut empty_table, &mut frames, 1).err(), Some(StackError::NotMapped));
    assert_eq!(table.mapped_pages(), 1);
    assert_eq!(frames.frames_available(), 63);
}

#[test]
fn fork_runs_out_of_slots() {
    let mut table = PageTable::new();
    let mut frames = FrameAllocator::new(64);
    map_range(0x5000, 1, &mut table, &mut frames, true).unwrap();
    let stack = Stack::new(5, 1);
    assert_eq!(stack.fork(&mut table, &mut frames, 0).err(), Some(StackError::NoSlot));
    assert_eq!(stack.fork(&mut table, &mut frames, 1).err(), Some(StackError::NoSlot));
}

#[test]
fn clean_up_unmaps_the_stack_and_is_idempotent() {
    let (mut stack, mut table, mut frames) = fresh();
    assert!(stack.handle_page_fault(STACK_INIT_BOT - 2 * 4096, &mut table, &mut frames, true));
    assert_eq!(stack.clean_up(&mut table, &mut frames), Ok(()));
    assert_eq!(stack.memory_usage(), 0);
    assert_eq!(table.mapped_pages(), 0);
    assert_eq!(frames.frames_available(), 64);
    assert_eq!(stack.clean_up(&mut table, &mut frames), Ok(()));
    assert_eq!(frames.frames_available(), 64);
}

#[test]
fn clean_up_fails_when_a_page_is_missing() {
    let (mut stack, _, mut frames) = fresh();
    let mut other = PageTable::new();
    assert_eq!(stack.clean_up(&mut other, &mut frames), Err(UnmapError::PageNotMapped));
    assert_eq!(stack.memory_usage(), 4096);
}
