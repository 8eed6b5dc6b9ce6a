use ysos::proc::pid::ProcessId;
use ysos::proc::sync::Semaphore;
use ysos::proc::sync::SemaphoreId;
use ysos::proc::sync::SemaphoreResult;
use ysos::proc::sync::SemaphoreSet;

#[test]
fn semaphore_id_keeps_its_key() {
    assert_eq!(SemaphoreId::new(0x1001).raw(), 0x1001);
}

#[test]
fn wait_takes_from_a_positive_count() {
    let mut sem = Semaphore::new(2);
    assert_eq!(sem.wait(ProcessId(3)), SemaphoreResult::Done);
    assert_eq!(sem.count(), 1);
    assert_eq!(sem.wait(ProcessId(4)), SemaphoreResult::Done);
    assert_eq!(sem.count(), 0);
    assert_eq!(sem.waiting(), 0);
}

#[test]
fn wait_on_zero_blocks_the_caller() {
    let mut sem = Semaphore::new(0);
    assert_eq!(sem.wait(ProcessId(9)), SemaphoreResult::Block(ProcessId(9)));
    assert_eq!(sem.count(), 0);
    assert_eq!(sem.waiting(), 1);
}

#[test]
fn signal_without_waiters_adds_to_the_count() {
    let mut sem = Semaphore::new(0);
    assert_eq!(sem.signal(), SemaphoreResult::Done);
    assert_eq!(sem.count(), 1);
}

#[test]
fn signal_wakes_in_the_order_of_waiting() {
    let mut sem = Semaphore::new(0);
    let waiters: Vec<u16> = vec![5, 2, 9, 7, 3, 11, 4];
    for pid in waiters.iter() {
        assert_eq!(sem.wait(ProcessId(*pid)), SemaphoreResult::Block(ProcessId(*pid)));
    }
    for pid in waiters.iter() {
        assert_eq!(sem.signal(), SemaphoreResult::WakeUp(ProcessId(*pid)));
    }
    assert_eq!(sem.count(), 0);
    assert_eq!(sem.waiting(), 0);
    assert_eq!(sem.signal(), SemaphoreResult::Done);
    assert_eq!(sem.count(), 1);
}

#[test]
fn signal_is_refused_only_at_the_largest_count() {
    let mut sem = Semaphore::new(usize::MAX);
    assert!(!sem.can_signal());
    assert_eq!(sem.wait(ProcessId(1)), SemaphoreResult::Done);
    assert!(sem.can_signal());
}

#[test]
fn set_refuses_a_key_that_is_taken() {
    let mut set = SemaphoreSet::new();
    assert!(set.insert(7, 1));
    assert!(!set.insert(7, 5));
    assert!(set.contains(7));
    assert_eq!(set.wait(7, ProcessId(2)), SemaphoreResult::Done);
    assert_eq!(set.wait(7, ProcessId(2)), SemaphoreResult::Block(ProcessId(2)));
}

#[test]
fn set_remove_reports_whether_the_key_was_there() {
    let mut set = SemaphoreSet::new();
    assert!(!set.remove(1));
    assert!(set.insert(1, 0));
    assert!(set.remove(1));
    assert!(!set.remove(1));
    assert!(!set.contains(1));
}

#[test]
fn set_answers_not_exist_for_unknown_keys() {
    let mut set = SemaphoreSet::new();
    assert_eq!(set.wait(3, ProcessId(1)), SemaphoreResult::NotExist);
    assert_eq!(set.signal(3), SemaphoreResult::NotExist);
    assert!(set.can_signal(3));
}

#[test]
fn set_keeps_semaphores_apart() {
    let mut set = SemaphoreSet::new();
    assert!(set.insert(1, 0));
    assert!(set.insert(2, 0));
    assert_eq!(set.wait(1, ProcessId(10)), SemaphoreResult::Block(ProcessId(10)));
    assert_eq!(set.wait(2, ProcessId(20)), SemaphoreResult::Block(ProcessId(20)));
    assert_eq!(set.wait(1, ProcessId(11)), SemaphoreResult::Block(ProcessId(11)));
    assert!(set.is_zero(1));
    assert_eq!(set.signal(2), SemaphoreResult::WakeUp(ProcessId(20)));
    assert_eq!(set.signal(1), SemaphoreResult::WakeUp(ProcessId(10)));
    assert_eq!(set.signal(1), SemaphoreResult::WakeUp(ProcessId(11)));
    assert_eq!(set.signal(1), SemaphoreResult::Done);
    assert!(!set.is_zero(1));
}
