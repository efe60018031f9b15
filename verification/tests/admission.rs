use scheduler::{
    Pid, PriorityRoundRobin, SchedulingDecision, StopReason, Syscall, SyscallResult,
};

fn report(syscall: Syscall, remaining: usize) -> StopReason {
    StopReason::Syscall { syscall, remaining }
}

fn aged_to_the_limit() -> PriorityRoundRobin {
    let mut engine = PriorityRoundRobin::new(usize::MAX, 1);
    assert!(engine.can_stop(report(Syscall::Fork(0), 0)));
    engine.stop(report(Syscall::Fork(0), 0));
    assert!(engine.can_next());
    assert_eq!(engine.next(), SchedulingDecision::Run { pid: Pid::new(1), timeslice: usize::MAX });
    assert!(engine.can_stop(StopReason::Expired));
    engine.stop(StopReason::Expired);
    assert_eq!(engine.list()[0].timings(), (usize::MAX, 0, usize::MAX));
    engine
}

#[test]
fn fresh_engine_admits_every_call() {
    let engine = PriorityRoundRobin::new(3, 1);
    assert!(engine.can_next());
    assert!(engine.can_stop(StopReason::Expired));
    assert!(engine.can_stop(report(Syscall::Fork(0), 9)));
    assert!(engine.can_stop(report(Syscall::Wait(1), 9)));
    assert!(engine.can_stop(report(Syscall::Signal(1), 9)));
    assert!(engine.can_stop(report(Syscall::Exit, 3)));
    assert!(engine.can_stop(report(Syscall::Sleep(1), 3)));
}

#[test]
fn more_ticks_left_than_granted_are_refused() {
    let mut engine = PriorityRoundRobin::new(5, 1);
    engine.fork(0, 0);
    engine.next();
    engine.fork(0, 3);
    assert_eq!(engine.remaining, 3);
    assert!(engine.can_stop(report(Syscall::Exit, 3)));
    assert!(!engine.can_stop(report(Syscall::Exit, 4)));
    assert!(engine.can_stop(report(Syscall::Sleep(1), 4)));
    assert!(!engine.can_stop(report(Syscall::Sleep(1), 6)));
}

#[test]
fn sleeper_without_a_tick_to_give_back_is_refused() {
    let mut engine = PriorityRoundRobin::new(5, 1);
    engine.fork(0, 0);
    engine.next();
    // Nothing consumed and nothing executed before: no tick to give back.
    assert!(!engine.can_stop(report(Syscall::Sleep(1), 5)));
    assert!(engine.can_stop(report(Syscall::Sleep(1), 4)));
    engine.stop(StopReason::Expired);
    // Five ticks executed: the request may come with the whole slice left.
    assert!(engine.can_stop(report(Syscall::Sleep(1), 5)));
    assert_eq!(engine.stop(report(Syscall::Sleep(1), 5)), SyscallResult::Success);
    assert_eq!(engine.list()[0].timings(), (4, 0, 4));
}

#[test]
fn counters_at_the_limit_refuse_more_ticks() {
    let mut engine = aged_to_the_limit();
    assert!(!engine.can_stop(StopReason::Expired));
    assert!(engine.can_stop(report(Syscall::Exit, 0)));
    assert!(engine.can_stop(report(Syscall::Fork(0), 0)));
    assert!(engine.can_stop(report(Syscall::Wait(1), 0)));
    assert!(engine.can_stop(report(Syscall::Signal(1), 0)));
    // One tick consumed and one given back fits; two consumed do not.
    assert!(engine.can_stop(report(Syscall::Sleep(1), usize::MAX - 1)));
    assert!(!engine.can_stop(report(Syscall::Sleep(1), usize::MAX - 2)));
    assert!(engine.can_next());
    assert_eq!(engine.stop(report(Syscall::Wait(7), 0)), SyscallResult::Success);
    // The pending tick of the system call would overflow the age.
    assert!(!engine.can_next());
}

#[test]
fn exit_at_the_limit_looks_at_the_others_only() {
    let mut engine = aged_to_the_limit();
    engine.stop(report(Syscall::Fork(0), 0));
    assert!(engine.can_stop(report(Syscall::Exit, 0)));
    engine.next();
    engine.stop(StopReason::Expired);
    let ages: Vec<usize> = engine.list().iter().map(|p| p.timings().0).collect();
    assert_eq!(ages, vec![usize::MAX, usize::MAX]);
    assert!(engine.can_stop(report(Syscall::Exit, usize::MAX)));
    assert!(!engine.can_stop(report(Syscall::Exit, usize::MAX - 1)));
}

#[test]
fn served_sleep_at_the_limit_is_refused() {
    let mut engine = PriorityRoundRobin::new(usize::MAX, 1);
    engine.stop(report(Syscall::Fork(0), 0));
    engine.next();
    assert!(engine.can_stop(report(Syscall::Sleep(2), 0)));
    engine.stop(report(Syscall::Sleep(2), 0));
    assert_eq!(engine.list()[0].timings(), (usize::MAX - 1, 0, usize::MAX - 1));
    assert!(engine.can_next());
    assert_eq!(engine.next(), SchedulingDecision::Sleep(2));
    assert_eq!(engine.list()[0].timings(), (usize::MAX, 1, usize::MAX - 1));
    // Crediting the two ticks of sleep would overflow the age.
    assert!(!engine.can_next());
}

#[test]
fn missing_init_process_needs_no_room() {
    let mut engine = aged_to_the_limit();
    engine.stop(report(Syscall::Fork(0), 0));
    engine.stop(report(Syscall::Exit, usize::MAX));
    assert_eq!(engine.list().len(), 1);
    engine.syscall = true;
    assert!(engine.can_next());
    assert_eq!(engine.next(), SchedulingDecision::Panic);
}
