use ysos::proc::pid::issue_many;
use ysos::proc::pid::PidAllocator;
use ysos::proc::pid::ProcessId;

#[test]
fn first_identifier_is_one() {
    let mut pids = PidAllocator::new();
    let pid = ProcessId::new(&mut pids);
    assert_eq!(pid.0, 1);
    assert_eq!(pids.issued(), 1);
}

#[test]
fn identifiers_are_distinct_and_increasing() {
    let mut pids = PidAllocator::new();
    let ids = issue_many(&mut pids, 500);
    assert_eq!(ids.len(), 500);
    for i in 1..ids.len() {
        assert!(ids[i - 1].0 < ids[i].0);
    }
    for id in ids.iter() {
        assert_ne!(id.0, 0);
    }
}

#[test]
fn allocator_reports_exhaustion() {
    let mut pids = PidAllocator::new();
    let ids = issue_many(&mut pids, 65535);
    assert_eq!(ids[65534].0, 65535);
    assert!(pids.is_exhausted());
}

#[test]
fn identifier_converts_to_number() {
    let raw: u16 = u16::from(ProcessId(7));
    assert_eq!(raw, 7);
}
