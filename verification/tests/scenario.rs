use std::collections::BTreeMap;
use ysos::memory::frames::FrameAllocator;
use ysos::memory::paging::map_range;
use ysos::memory::paging::PageTable;
use ysos::proc::context::ProcessContext;
use ysos::proc::context::Selectors;
use ysos::proc::exit;
use ysos::proc::fork;
use ysos::proc::init;
use ysos::proc::manager::App;
use ysos::proc::manager::ProcessManager;
use ysos::proc::new_sem;
use ysos::proc::pid::ProcessId;
use ysos::proc::sem_signal;
use ysos::proc::sem_wait;
use ysos::proc::spawn;
use ysos::proc::switch;
use ysos::proc::vm::stack::KSTACK_INIT_BOT;
use ysos::proc::vm::ExecutableImage;
use ysos::proc::vm::Segment;
use ysos::proc::wait_pid;
use ysos::proc::ProgramStatus;

const CHILDREN: usize = 8;
const ROUNDS: usize = 100;

/// Where a simulated program stands.
#[derive(Clone, Copy, Debug, PartialEq, Eq)]
enum Step {
    /// The parent forks its next child.
    Fork,
    /// The parent waits for child number `0`.
    Wait(usize),
    /// A child asks for the semaphore.
    Acquire,
    /// A child reads the counter into its register.
    Load,
    /// A child adds one to its register.
    Add,
    /// A child writes its register to the counter.
    Store,
    /// A child gives the semaphore back.
    Release,
    /// The program exits.
    Exit,
    /// The parent has seen all children exit.
    Done,
}

#[derive(Clone, Debug)]
struct Program {
    step: Step,
    /// A system call was made whose result has not been looked at.
    awaiting: bool,
    register: isize,
    rounds: usize,
    children: Vec<u16>,
}

struct Machine {
    manager: ProcessManager,
    context: ProcessContext,
    programs: BTreeMap<u16, Program>,
    counter: isize,
    protect: bool,
}

fn boot() -> Machine {
    let mut table = PageTable::new();
    let mut frames = FrameAllocator::new(256);
    map_range(KSTACK_INIT_BOT, 4, &mut table, &mut frames, false).unwrap();
    let image = ExecutableImage { entry_point: 0x1000, segments: vec![Segment { start: 0x1000, pages: 1 }] };
    let apps = vec![App { name: "counter".to_string(), image }];
    let mut manager = init(table, frames, apps, Selectors { code_selector: 8, data_selector: 16 });
    let pid = spawn(&mut manager, "counter").unwrap();
    let mut programs = BTreeMap::new();
    programs.insert(pid.0, Program { step: Step::Fork, awaiting: false, register: 0, rounds: 0, children: Vec::new() });
    Machine { manager, context: ProcessContext::default(), programs, counter: 0, protect: true }
}

impl Machine {
    fn tick(&mut self) {
        let running = self.manager.current().read().status() == ProgramStatus::Running;
        assert!(!running || self.manager.has_ticks_left());
        switch(&mut self.manager, &mut self.context);
    }

    /// Lets the current process take one step. Returns false when the
    /// parent is done.
    fn step(&mut self) -> bool {
        let pid = self.manager.current.0;
        if pid == 1 {
            // the kernel process idles until the next tick
            return true;
        }
        let mut program = self.programs.get(&pid).unwrap().clone();
        let result = self.context.regs.rax;
        match program.step {
            Step::Fork => {
                if program.awaiting {
                    program.awaiting = false;
                    if result == 0 {
                        // this is the child
                        program.children.clear();
                        program.step = Step::Acquire;
                    } else {
                        program.children.push(result as u16);
                        program.step = if program.children.len() == CHILDREN { Step::Wait(0) } else { Step::Fork };
                    }
                    self.programs.insert(pid, program);
                } else {
                    program.awaiting = true;
                    self.programs.insert(pid, program.clone());
                    let next = self.manager.pids.issued() as u16 + 1;
                    self.context.regs.rax = 58;
                    assert!(self.manager.has_ticks_left());
                    fork(&mut self.manager, &mut self.context);
                    self.programs.insert(next, program);
                }
            }
            Step::Wait(i) => {
                if program.awaiting {
                    program.awaiting = false;
                    assert_eq!(result, 0);
                    program.step = if i + 1 == CHILDREN { Step::Done } else { Step::Wait(i + 1) };
                    self.programs.insert(pid, program);
                } else {
                    program.awaiting = true;
                    let child = ProcessId(program.children[i]);
                    self.programs.insert(pid, program);
                    assert!(self.manager.has_ticks_left());
                    wait_pid(&mut self.manager, child, &mut self.context);
                }
            }
            Step::Acquire => {
                program.step = Step::Load;
                self.programs.insert(pid, program);
                if self.protect {
                    assert!(self.manager.has_ticks_left());
                    sem_wait(&mut self.manager, 1, &mut self.context);
                }
            }
            Step::Load => {
                program.register = self.counter;
                program.step = Step::Add;
                self.programs.insert(pid, program);
            }
            Step::Add => {
                program.register += 1;
                program.step = Step::Store;
                self.programs.insert(pid, program);
            }
            Step::Store => {
                self.counter = program.register;
                program.step = Step::Release;
                self.programs.insert(pid, program);
            }
            Step::Release => {
                program.rounds += 1;
                program.step = if program.rounds == ROUNDS { Step::Exit } else { Step::Acquire };
                self.programs.insert(pid, program);
                if self.protect {
                    assert!(self.manager.can_signal(1));
                    sem_signal(&mut self.manager, 1, &mut self.context);
                }
            }
            Step::Exit => {
                exit(&mut self.manager, 0, &mut self.context);
            }
            Step::Done => return false,
        }
        true
    }
}

/// Runs the scenario; `preempt` says after which steps the timer fires.
fn run(protect: bool, mut preempt: impl FnMut(u64) -> bool) -> Machine {
    let mut machine = boot();
    machine.protect = protect;
    machine.tick();
    assert_eq!(machine.manager.current, ProcessId(2));
    assert_eq!(new_sem(&mut machine.manager, 1, 1), 0);
    let mut steps: u64 = 0;
    while machine.step() {
        steps += 1;
        assert!(steps < 1_000_000);
        if machine.manager.current == ProcessId(1) || preempt(steps) {
            machine.tick();
        }
    }
    machine
}

fn check(machine: &Machine) {
    assert_eq!(machine.counter, (CHILDREN * ROUNDS) as isize);
    assert_eq!(machine.manager.processes.len(), 2 + CHILDREN);
    for pid in 3..(3 + CHILDREN as u16) {
        assert_eq!(machine.manager.get_exit_code(ProcessId(pid)), Some(0));
    }
    assert_eq!(machine.manager.get_exit_code(ProcessId(2)), None);
    assert_eq!(machine.manager.groups[1].members, 1);
    assert!(!machine.manager.would_block(1));
}

#[test]
fn counter_reaches_800_without_preemption() {
    check(&run(true, |_| false));
}

#[test]
fn counter_reaches_800_with_a_tick_after_every_step() {
    check(&run(true, |_| true));
}

#[test]
fn counter_reaches_800_with_ticks_at_odd_moments() {
    for stride in [2u64, 3, 5, 7, 11, 13] {
        check(&run(true, |n| n % stride == 0));
    }
}

#[test]
fn counter_reaches_800_with_scattered_ticks() {
    for seed in [1u64, 42, 2024, 0xDEAD_BEEF] {
        let mut state = seed;
        check(&run(true, |_| {
            state = state.wrapping_mul(6364136223846793005).wrapping_add(1442695040888963407);
            (state >> 33) % 3 == 0
        }));
    }
}

#[test]
fn counter_loses_updates_without_the_semaphore() {
    let machine = run(false, |_| true);
    assert!(machine.counter < (CHILDREN * ROUNDS) as isize);
}
