use stopwatch::context::FiberId;
use stopwatch::fiber::{FiberState, FiberTable};

fn fiber(handle: u64) -> FiberId {
    FiberId { handle }
}

#[test]
fn resume_hands_back_the_suspended_fiber() {
    let mut table = FiberTable::new();
    table.init_thread(1, fiber(100));
    table.register(fiber(200));
    table.register(fiber(300));
    assert_eq!(table.current(1), Some(fiber(100)));
    assert_eq!(table.state(fiber(200)), Some(FiberState::Suspended));
    let prev = table.resume(1, fiber(200));
    assert_eq!(prev, fiber(100));
    assert_eq!(table.current(1), Some(fiber(200)));
    assert_eq!(table.state(fiber(100)), Some(FiberState::Suspended));
    assert_eq!(table.state(fiber(200)), Some(FiberState::Running(1)));
    assert_eq!(table.resume(1, fiber(300)), fiber(200));
    assert_eq!(table.resume(1, fiber(100)), fiber(300));
    assert_eq!(table.current(1), Some(fiber(100)));
}

#[test]
fn fibers_move_between_threads() {
    let mut table = FiberTable::new();
    table.init_thread(1, fiber(10));
    table.init_thread(2, fiber(20));
    table.register(fiber(30));
    assert_eq!(table.resume(1, fiber(30)), fiber(10));
    assert_eq!(table.resume(2, fiber(10)), fiber(20));
    assert_eq!(table.state(fiber(10)), Some(FiberState::Running(2)));
    assert_eq!(table.state(fiber(30)), Some(FiberState::Running(1)));
    assert_eq!(table.current(2), Some(fiber(10)));
}

#[test]
fn destroyed_fibers_stay_destroyed() {
    let mut table = FiberTable::new();
    table.init_thread(1, fiber(1));
    table.register(fiber(2));
    table.destroy(fiber(2));
    assert_eq!(table.state(fiber(2)), Some(FiberState::Destroyed));
    assert_eq!(table.state(fiber(3)), None);
    assert_eq!(table.current(4), None);
}
