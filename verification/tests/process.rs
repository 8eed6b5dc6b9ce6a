use ysos::memory::frames::FrameAllocator;
use ysos::memory::paging::PageTable;
use ysos::proc::context::ProcessContext;
use ysos::proc::context::Selectors;
use ysos::proc::context::INITIAL_FLAGS;
use ysos::proc::pid::PidAllocator;
use ysos::proc::pid::ProcessId;
use ysos::proc::process::Process;
use ysos::proc::vm::stack::StackError;
use ysos::proc::vm::stack::STACK_INIT_TOP;
use ysos::proc::vm::stack::STACK_MAX_SIZE;
use ysos::proc::vm::ExecutableImage;
use ysos::proc::vm::ProcessVm;
use ysos::proc::vm::Segment;
use ysos::proc::ProgramStatus;

fn user_process(name: &str, pids: &mut PidAllocator, table: &mut PageTable, frames: &mut FrameAllocator) -> Process {
    let mut vm = ProcessVm::new(0);
    vm.stack.init(table, frames).unwrap();
    Process::new(name.to_string(), None, vm, pids)
}

#[test]
fn context_starts_zeroed() {
    let context = ProcessContext::default();
    assert_eq!(context.regs.rax, 0);
    assert_eq!(context.regs.rdi, 0);
    assert_eq!(context.stack_frame.stack_pointer, 0);
    assert_eq!(context.stack_frame.cpu_flags, 0);
}

#[test]
fn init_stack_frame_sets_entry_stack_and_flags() {
    let mut context = ProcessContext::default();
    context.regs.rbx = 77;
    context.init_stack_frame(0x1111_0000, STACK_INIT_TOP, Selectors { code_selector: 0x2B, data_selector: 0x33 });
    assert_eq!(context.stack_frame.instruction_pointer, 0x1111_0000);
    assert_eq!(context.stack_frame.stack_pointer, STACK_INIT_TOP);
    assert_eq!(context.stack_frame.cpu_flags, 0x3200);
    assert_eq!(context.stack_frame.cpu_flags, INITIAL_FLAGS);
    assert_eq!(context.stack_frame.code_segment, 0x2B);
    assert_eq!(context.stack_frame.stack_segment, 0x33);
    assert_eq!(context.regs.rbx, 77);
}

#[test]
fn save_and_restore_copy_every_register() {
    let mut trap = ProcessContext::default();
    trap.regs.rax = 1;
    trap.regs.r15 = 15;
    trap.stack_frame.stack_pointer = 0x7000;
    let mut saved = ProcessContext::default();
    saved.save(&trap);
    assert_eq!(saved, trap);
    let mut other = ProcessContext::default();
    saved.restore(&mut other);
    assert_eq!(other, trap);
}

#[test]
fn stack_offset_wraps_around() {
    let mut context = ProcessContext::default();
    context.stack_frame.stack_pointer = STACK_INIT_TOP;
    context.set_stack_offset(0u64.wrapping_sub(STACK_MAX_SIZE));
    assert_eq!(context.stack_frame.stack_pointer, STACK_INIT_TOP - STACK_MAX_SIZE);
    context.set_stack_offset(STACK_MAX_SIZE);
    assert_eq!(context.stack_frame.stack_pointer, STACK_INIT_TOP);
}

#[test]
fn new_process_is_ready_and_lowercased() {
    let mut pids = PidAllocator::new();
    let mut table = PageTable::new();
    let mut frames = FrameAllocator::new(8);
    let process = user_process("HeLLo-42_Sh", &mut pids, &mut table, &mut frames);
    assert_eq!(process.pid(), ProcessId(1));
    assert_eq!(process.read().name(), "hello-42_sh");
    assert_eq!(process.read().status(), ProgramStatus::Ready);
    assert!(process.read().is_ready());
    assert_eq!(process.read().exit_code(), None);
    assert_eq!(process.read().parent(), None);
    assert_eq!(process.read().ticks_passed, 0);
    assert!(process.read().children.is_empty());
    assert_eq!(process.read().group(), Some(0));
    assert_eq!(process.read().vm().memory_usage(), 4096);
    let second = user_process("b", &mut pids, &mut PageTable::new(), &mut frames);
    assert_eq!(second.pid(), ProcessId(2));
}

#[test]
fn status_follows_the_state_machine() {
    let mut pids = PidAllocator::new();
    let mut table = PageTable::new();
    let mut frames = FrameAllocator::new(8);
    let mut process = user_process("p", &mut pids, &mut table, &mut frames);
    process.write().resume();
    assert_eq!(process.read().status(), ProgramStatus::Running);
    process.write().block();
    assert_eq!(process.read().status(), ProgramStatus::Blocked);
    process.write().pause();
    assert_eq!(process.read().status(), ProgramStatus::Ready);
    process.write().tick();
    process.write().tick();
    assert_eq!(process.read().ticks_passed, 2);
    process.write().set_return_value(-5);
    assert_eq!(process.read().context.regs.rax as isize, -5);
}

#[test]
fn dead_is_terminal() {
    let mut pids = PidAllocator::new();
    let mut table = PageTable::new();
    let mut frames = FrameAllocator::new(8);
    let mut process = user_process("p", &mut pids, &mut table, &mut frames);
    process.kill(17, &mut table, &mut frames);
    assert_eq!(process.read().status(), ProgramStatus::Dead);
    assert_eq!(process.read().exit_code(), Some(17));
    assert_eq!(process.read().group(), None);
    assert_eq!(table.mapped_pages(), 0);
    assert_eq!(frames.frames_available(), 8);
    process.kill(18, &mut table, &mut frames);
    assert_eq!(process.read().exit_code(), Some(17));
    assert_eq!(frames.frames_available(), 8);
    process.write().pause();
    assert_eq!(process.read().status(), ProgramStatus::Dead);
    process.write().resume();
    assert_eq!(process.read().status(), ProgramStatus::Dead);
    process.write().block();
    assert_eq!(process.read().status(), ProgramStatus::Dead);
    assert!(!process.write().handle_page_fault(STACK_INIT_TOP - 8192, &mut table, &mut frames, true));
}

#[test]
fn fork_gives_parent_the_child_and_child_zero() {
    let mut pids = PidAllocator::new();
    let mut table = PageTable::new();
    let mut frames = FrameAllocator::new(8);
    let mut parent = user_process("Shell", &mut pids, &mut table, &mut frames);
    parent.write().context.regs.rax = 58;
    parent.write().context.regs.rdi = 99;
    parent.write().context.stack_frame.stack_pointer = STACK_INIT_TOP - 64;
    parent.write().tick();
    let child = parent.fork(&mut pids, &mut table, &mut frames).unwrap();
    assert_eq!(child.pid(), ProcessId(2));
    assert_eq!(parent.read().context.regs.rax, 2);
    assert_eq!(child.read().context.regs.rax, 0);
    assert_eq!(child.read().context.regs.rdi, 99);
    assert_eq!(child.read().context.stack_frame.stack_pointer, STACK_INIT_TOP - 64 - STACK_MAX_SIZE);
    assert_eq!(child.read().name(), "shell");
    assert_eq!(child.read().parent(), Some(ProcessId(1)));
    assert_eq!(child.read().status(), ProgramStatus::Ready);
    assert_eq!(child.read().ticks_passed, 0);
    assert!(child.read().children.is_empty());
    assert_eq!(parent.read().children, vec![ProcessId(2)]);
    assert_eq!(child.read().group(), Some(0));
    let second = parent.fork(&mut pids, &mut table, &mut frames).unwrap();
    assert_eq!(second.pid(), ProcessId(3));
    assert_eq!(parent.read().children, vec![ProcessId(2), ProcessId(3)]);
    assert_eq!(second.read().context.stack_frame.stack_pointer, STACK_INIT_TOP - 64 - 2 * STACK_MAX_SIZE);
    assert_eq!(table.mapped_pages(), 3);
}

#[test]
fn failed_fork_uses_no_identifier() {
    let mut pids = PidAllocator::new();
    let mut table = PageTable::new();
    let mut frames = FrameAllocator::new(1);
    let mut parent = user_process("p", &mut pids, &mut table, &mut frames);
    assert_eq!(parent.fork(&mut pids, &mut table, &mut frames).err(), Some(StackError::OutOfFrames));
    assert!(parent.read().children.is_empty());
    assert_eq!(pids.issued(), 1);
    assert_eq!(parent.read().context.regs.rax, 0);
}

#[test]
fn load_elf_maps_segments_until_one_fails() {
    let mut pids = PidAllocator::new();
    let mut table = PageTable::new();
    let mut frames = FrameAllocator::new(8);
    let mut process = user_process("p", &mut pids, &mut table, &mut frames);
    let image = ExecutableImage {
        entry_point: 0x1111_0000,
        segments: vec![
            Segment { start: 0x1111_0000, pages: 2 },
            Segment { start: 0x1111_2000, pages: 1 },
            Segment { start: 0x1111_1000, pages: 1 },
            Segment { start: 0x2222_0000, pages: 1 },
        ],
    };
    assert!(process.write().load_elf(&image, &mut table, &mut frames).is_err());
    assert!(table.is_mapped(0x11110));
    assert!(table.is_mapped(0x11111));
    assert!(table.is_mapped(0x11112));
    assert!(!table.is_mapped(0x22220));
    assert_eq!(frames.frames_available(), 4);
    let copy = image.duplicate();
    assert_eq!(copy.entry_point, image.entry_point);
    assert_eq!(copy.segments, image.segments);
}

#[test]
fn init_proc_stack_places_the_stack_by_identifier() {
    let mut table = PageTable::new();
    let mut frames = FrameAllocator::new(8);
    let mut vm = ProcessVm::new(0);
    assert_eq!(vm.init_proc_stack(ProcessId(3), &mut table, &mut frames), Some(STACK_INIT_TOP - 2 * STACK_MAX_SIZE));
    assert_eq!(vm.stack.pages().start, (STACK_INIT_TOP - 2 * STACK_MAX_SIZE) / 4096);
    assert_eq!(vm.memory_usage(), 4096);
    assert!(table.is_mapped((STACK_INIT_TOP - 2 * STACK_MAX_SIZE) / 4096));
    let mut other = ProcessVm::new(0);
    assert_eq!(other.init_proc_stack(ProcessId(3), &mut table, &mut frames), None);
    assert_eq!(other.init_proc_stack(ProcessId(0), &mut table, &mut frames), None);
    assert_eq!(other.init_proc_stack(ProcessId(0x4001), &mut table, &mut frames), None);
    assert_eq!(other.init_proc_stack(ProcessId(0x4000), &mut table, &mut frames), Some(STACK_INIT_TOP - 0x3FFF * STACK_MAX_SIZE));
    assert_eq!(ProcessVm::new(4).init_kernel_vm().memory_usage(), 4 * 4096);
}

#[test]
fn segments_span_the_pages_they_touch() {
    assert_eq!(Segment::spanning(0x1000, 0), Some(Segment { start: 0x1000, pages: 0 }));
    assert_eq!(Segment::spanning(0x1000, 1), Some(Segment { start: 0x1000, pages: 1 }));
    assert_eq!(Segment::spanning(0x1000, 4096), Some(Segment { start: 0x1000, pages: 1 }));
    assert_eq!(Segment::spanning(0x1FFF, 2), Some(Segment { start: 0x1FFF, pages: 2 }));
    assert_eq!(Segment::spanning(0x1234, 0x3000), Some(Segment { start: 0x1234, pages: 4 }));
    assert_eq!(Segment::spanning(u64::MAX, 1), None);
    assert_eq!(Segment::spanning(u64::MAX - 1, 1), Some(Segment { start: u64::MAX - 1, pages: 1 }));
}

#[test]
fn vm_mut_reaches_the_stack() {
    let mut pids = PidAllocator::new();
    let mut table = PageTable::new();
    let mut frames = FrameAllocator::new(8);
    let mut process = user_process("p", &mut pids, &mut table, &mut frames);
    assert!(process.write().vm_mut().handle_page_fault(STACK_INIT_TOP - 4096, &mut table, &mut frames, true));
    assert_eq!(process.read().vm().memory_usage(), 2 * 4096);
}
