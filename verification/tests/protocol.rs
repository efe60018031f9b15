use scheduler::{
    Pid, PriorityRoundRobin, ProcessState, SchedulingDecision, StopReason, Syscall, SyscallResult,
};

fn next(engine: &mut PriorityRoundRobin) -> SchedulingDecision {
    assert!(engine.can_next());
    engine.next()
}

fn stop(engine: &mut PriorityRoundRobin, reason: StopReason) -> SyscallResult {
    assert!(engine.can_stop(reason));
    engine.stop(reason)
}

fn syscall(engine: &mut PriorityRoundRobin, syscall: Syscall, remaining: usize) -> SyscallResult {
    stop(engine, StopReason::Syscall { syscall, remaining })
}

fn run(pid: usize, timeslice: usize) -> SchedulingDecision {
    SchedulingDecision::Run { pid: Pid::new(pid), timeslice }
}

fn pids(engine: &PriorityRoundRobin) -> Vec<usize> {
    engine.list().iter().map(|p| p.pid().as_usize()).collect()
}

fn states(engine: &PriorityRoundRobin) -> Vec<ProcessState> {
    engine.list().iter().map(|p| p.state()).collect()
}

fn timings(engine: &PriorityRoundRobin) -> Vec<(usize, usize, usize)> {
    engine.list().iter().map(|p| p.timings()).collect()
}

const SLEEPING: ProcessState = ProcessState::Waiting { event: None };

#[test]
fn empty_table_is_done() {
    let mut engine = PriorityRoundRobin::new(3, 1);
    assert_eq!(next(&mut engine), SchedulingDecision::Done);
    assert!(engine.list().is_empty());
    assert_eq!(engine.remaining, 3);
    assert!(!engine.syscall);
    assert!(!engine.fork_syscall);
}

#[test]
fn single_process_keeps_running() {
    let mut engine = PriorityRoundRobin::new(3, 1);
    assert_eq!(syscall(&mut engine, Syscall::Fork(0), 0), SyscallResult::Pid(Pid::new(1)));
    assert_eq!(next(&mut engine), run(1, 3));
    assert_eq!(stop(&mut engine, StopReason::Expired), SyscallResult::Success);
    assert_eq!(pids(&engine), vec![1]);
    assert_eq!(states(&engine), vec![ProcessState::Ready]);
    assert_eq!(timings(&engine), vec![(3, 0, 3)]);
    assert_eq!(next(&mut engine), run(1, 3));
    assert_eq!(states(&engine), vec![ProcessState::Running]);
}

#[test]
fn single_process_gets_a_fresh_slice_when_the_rest_is_too_short() {
    let mut engine = PriorityRoundRobin::new(3, 4);
    assert_eq!(syscall(&mut engine, Syscall::Fork(0), 0), SyscallResult::Pid(Pid::new(1)));
    assert_eq!(next(&mut engine), run(1, 3));
    assert_eq!(stop(&mut engine, StopReason::Expired), SyscallResult::Success);
    assert_eq!(next(&mut engine), run(1, 3));
    assert_eq!(engine.remaining, 3);
}

#[test]
fn fork_bootstrap() {
    let mut engine = PriorityRoundRobin::new(4, 1);
    assert_eq!(syscall(&mut engine, Syscall::Fork(7), 0), SyscallResult::Pid(Pid::new(1)));
    assert_eq!(states(&engine), vec![ProcessState::Running]);
    assert!(!engine.syscall);
    assert!(!engine.fork_syscall);
    assert_eq!(syscall(&mut engine, Syscall::Fork(-2), 0), SyscallResult::Pid(Pid::new(2)));
    assert_eq!(pids(&engine), vec![1, 2]);
    assert_eq!(states(&engine), vec![ProcessState::Running, ProcessState::Ready]);
    assert_eq!(timings(&engine), vec![(0, 0, 0), (0, 0, 0)]);
    assert!(engine.syscall);
    assert!(engine.fork_syscall);
    {
        let list = engine.list();
        assert_eq!(list[0].priority(), 7);
        assert_eq!(list[1].priority(), -2);
        assert_eq!(list[0].extra(), String::new());
    }
    // The tick of the fork is charged to the parent only.
    assert_eq!(next(&mut engine), run(1, 4));
    assert_eq!(timings(&engine), vec![(1, 1, 0), (0, 0, 0)]);
    assert!(!engine.syscall);
    assert!(!engine.fork_syscall);
}

#[test]
fn round_robin_dispatches_the_other_process_after_expiry() {
    let mut engine = PriorityRoundRobin::new(3, 1);
    syscall(&mut engine, Syscall::Fork(0), 0);
    assert_eq!(next(&mut engine), run(1, 3));
    assert_eq!(syscall(&mut engine, Syscall::Fork(0), 2), SyscallResult::Pid(Pid::new(2)));
    assert_eq!(engine.remaining, 2);
    assert_eq!(next(&mut engine), run(1, 2));
    assert_eq!(timings(&engine), vec![(1, 1, 0), (0, 0, 0)]);
    assert_eq!(stop(&mut engine, StopReason::Expired), SyscallResult::Success);
    assert_eq!(pids(&engine), vec![2, 1]);
    assert_eq!(states(&engine), vec![ProcessState::Ready, ProcessState::Ready]);
    assert_eq!(timings(&engine), vec![(2, 0, 0), (3, 1, 2)]);
    assert_eq!(engine.remaining, 3);
    assert_eq!(next(&mut engine), run(2, 3));
    assert_eq!(states(&engine), vec![ProcessState::Running, ProcessState::Ready]);
    assert_eq!(stop(&mut engine, StopReason::Expired), SyscallResult::Success);
    assert_eq!(pids(&engine), vec![1, 2]);
    assert_eq!(timings(&engine), vec![(6, 1, 2), (5, 0, 3)]);
    assert_eq!(next(&mut engine), run(1, 3));
}

#[test]
fn quantum_reuse_grants_what_is_left() {
    let mut engine = PriorityRoundRobin::new(5, 2);
    syscall(&mut engine, Syscall::Fork(0), 0);
    assert_eq!(next(&mut engine), run(1, 5));
    // Two ticks consumed, three left: enough to be granted again.
    assert_eq!(syscall(&mut engine, Syscall::Fork(0), 3), SyscallResult::Pid(Pid::new(2)));
    assert_eq!(next(&mut engine), run(1, 3));
    assert_eq!(engine.remaining, 3);
    assert_eq!(pids(&engine), vec![1, 2]);
}

#[test]
fn short_remainder_gives_way_to_the_second_process() {
    let mut engine = PriorityRoundRobin::new(5, 2);
    syscall(&mut engine, Syscall::Fork(0), 0);
    assert_eq!(next(&mut engine), run(1, 5));
    // Four ticks consumed, one left: less than the minimum of two.
    assert_eq!(syscall(&mut engine, Syscall::Fork(0), 1), SyscallResult::Pid(Pid::new(2)));
    assert_eq!(next(&mut engine), run(2, 5));
    assert_eq!(engine.remaining, 5);
    assert_eq!(pids(&engine), vec![2, 1]);
    assert_eq!(states(&engine), vec![ProcessState::Running, ProcessState::Ready]);
    assert_eq!(timings(&engine), vec![(0, 0, 0), (1, 1, 0)]);
}

#[test]
fn sleep_round_trip() {
    let mut engine = PriorityRoundRobin::new(5, 1);
    syscall(&mut engine, Syscall::Fork(0), 0);
    assert_eq!(next(&mut engine), run(1, 5));
    // Two ticks consumed; the tick of the request is given back.
    assert_eq!(syscall(&mut engine, Syscall::Sleep(5), 3), SyscallResult::Success);
    assert_eq!(states(&engine), vec![SLEEPING]);
    assert_eq!(timings(&engine), vec![(1, 0, 1)]);
    assert!(engine.syscall);
    assert!(!engine.fork_syscall);
    assert_eq!(next(&mut engine), SchedulingDecision::Sleep(5));
    assert_eq!(states(&engine), vec![SLEEPING]);
    assert_eq!(timings(&engine), vec![(2, 1, 1)]);
    assert!(!engine.syscall);
    // The driver slept; the next decision credits the sleep and dispatches.
    assert_eq!(next(&mut engine), run(1, 5));
    assert_eq!(states(&engine), vec![ProcessState::Running]);
    assert_eq!(timings(&engine), vec![(7, 1, 1)]);
}

#[test]
fn woken_process_is_ready_when_it_gives_way() {
    // The minimum is above the slice, so every dispatch renews the slice and
    // promotes the second process.
    let mut engine = PriorityRoundRobin::new(3, 4);
    syscall(&mut engine, Syscall::Fork(0), 0);
    syscall(&mut engine, Syscall::Fork(0), 0);
    assert_eq!(pids(&engine), vec![1, 2]);
    assert_eq!(next(&mut engine), run(2, 3));
    assert_eq!(pids(&engine), vec![2, 1]);
    assert_eq!(timings(&engine), vec![(0, 0, 0), (1, 1, 0)]);
    assert_eq!(syscall(&mut engine, Syscall::Sleep(6), 1), SyscallResult::Success);
    assert_eq!(pids(&engine), vec![1, 2]);
    assert_eq!(timings(&engine), vec![(3, 1, 0), (1, 0, 1)]);
    // Process 1 gives way; process 2, which asked to sleep, is promoted.
    assert_eq!(next(&mut engine), run(2, 3));
    assert_eq!(pids(&engine), vec![2, 1]);
    assert_eq!(states(&engine), vec![ProcessState::Running, ProcessState::Ready]);
    assert_eq!(timings(&engine), vec![(2, 0, 1), (4, 2, 0)]);
    assert_eq!(syscall(&mut engine, Syscall::Sleep(6), 2), SyscallResult::Success);
    assert_eq!(pids(&engine), vec![1, 2]);
    assert_eq!(timings(&engine), vec![(5, 2, 0), (2, 0, 1)]);
    assert_eq!(syscall(&mut engine, Syscall::Sleep(9), 2), SyscallResult::Success);
    assert_eq!(pids(&engine), vec![2, 1]);
    assert_eq!(states(&engine), vec![SLEEPING, SLEEPING]);
    assert_eq!(timings(&engine), vec![(3, 0, 1), (5, 2, 0)]);
    assert_eq!(next(&mut engine), SchedulingDecision::Sleep(6));
    assert_eq!(timings(&engine), vec![(4, 1, 1), (6, 2, 0)]);
    // Waking up: process 2 is credited its six ticks, gives way to process 1
    // and is ready at the back.
    assert_eq!(next(&mut engine), run(1, 3));
    assert_eq!(pids(&engine), vec![1, 2]);
    assert_eq!(states(&engine), vec![ProcessState::Running, ProcessState::Ready]);
    assert_eq!(timings(&engine), vec![(12, 2, 0), (10, 1, 1)]);
}

#[test]
fn served_sleep_ages_every_record_by_its_duration() {
    let mut engine = PriorityRoundRobin::new(10, 1);
    syscall(&mut engine, Syscall::Fork(0), 0);
    assert_eq!(next(&mut engine), run(1, 10));
    syscall(&mut engine, Syscall::Fork(0), 9);
    assert_eq!(next(&mut engine), run(1, 9));
    stop(&mut engine, StopReason::Expired);
    assert_eq!(timings(&engine), vec![(9, 0, 0), (10, 1, 9)]);
    assert_eq!(next(&mut engine), run(2, 10));
    assert_eq!(syscall(&mut engine, Syscall::Sleep(3), 8), SyscallResult::Success);
    assert_eq!(pids(&engine), vec![1, 2]);
    assert_eq!(timings(&engine), vec![(12, 1, 9), (10, 0, 1)]);
    assert_eq!(next(&mut engine), run(1, 10));
    assert_eq!(timings(&engine), vec![(13, 2, 9), (11, 0, 1)]);
    assert_eq!(syscall(&mut engine, Syscall::Sleep(5), 7), SyscallResult::Success);
    assert_eq!(pids(&engine), vec![2, 1]);
    assert_eq!(timings(&engine), vec![(14, 0, 1), (15, 2, 11)]);
    assert_eq!(next(&mut engine), SchedulingDecision::Sleep(3));
    assert_eq!(timings(&engine), vec![(15, 1, 1), (16, 2, 11)]);
    assert_eq!(next(&mut engine), run(2, 10));
    // Three ticks of sleep pass for both, whatever the other asked for.
    assert_eq!(timings(&engine), vec![(18, 1, 1), (19, 2, 11)]);
    assert_eq!(states(&engine), vec![ProcessState::Running, SLEEPING]);
}

#[test]
fn exiting_every_process_ends_in_done() {
    let mut engine = PriorityRoundRobin::new(2, 1);
    syscall(&mut engine, Syscall::Fork(0), 0);
    syscall(&mut engine, Syscall::Fork(0), 0);
    syscall(&mut engine, Syscall::Fork(0), 0);
    assert_eq!(pids(&engine), vec![1, 2, 3]);
    assert_eq!(next(&mut engine), run(1, 2));
    stop(&mut engine, StopReason::Expired);
    assert_eq!(pids(&engine), vec![2, 3, 1]);
    assert_eq!(next(&mut engine), run(2, 2));
    assert_eq!(syscall(&mut engine, Syscall::Exit, 1), SyscallResult::Success);
    assert_eq!(pids(&engine), vec![3, 1]);
    assert_eq!(next(&mut engine), run(3, 2));
    assert_eq!(syscall(&mut engine, Syscall::Exit, 0), SyscallResult::Success);
    assert_eq!(pids(&engine), vec![1]);
    assert_eq!(next(&mut engine), run(1, 2));
    assert_eq!(syscall(&mut engine, Syscall::Exit, 0), SyscallResult::Success);
    assert!(engine.list().is_empty());
    assert_eq!(next(&mut engine), SchedulingDecision::Done);
    assert!(engine.list().is_empty());
    assert_eq!(next(&mut engine), SchedulingDecision::Done);
}

#[test]
fn exiting_in_rounds_empties_the_table_whatever_is_decided() {
    let mut engine = PriorityRoundRobin::new(2, 1);
    for _ in 0..4 {
        syscall(&mut engine, Syscall::Fork(0), 0);
    }
    let mut rounds = 0;
    while !engine.list().is_empty() {
        let before = engine.list().len();
        next(&mut engine);
        assert_eq!(engine.list().len(), before);
        syscall(&mut engine, Syscall::Exit, 0);
        assert_eq!(engine.list().len(), before - 1);
        rounds += 1;
    }
    assert_eq!(rounds, 4);
    assert_eq!(next(&mut engine), SchedulingDecision::Done);
}

#[test]
fn missing_init_process_is_a_panic() {
    let mut engine = PriorityRoundRobin::new(3, 1);
    syscall(&mut engine, Syscall::Fork(0), 0);
    syscall(&mut engine, Syscall::Fork(0), 0);
    assert_eq!(next(&mut engine), run(1, 3));
    assert_eq!(syscall(&mut engine, Syscall::Exit, 1), SyscallResult::Success);
    assert_eq!(pids(&engine), vec![2]);
    assert_eq!(timings(&engine), vec![(2, 0, 0)]);
    assert_eq!(next(&mut engine), SchedulingDecision::Panic);
    // Nothing moved.
    assert_eq!(pids(&engine), vec![2]);
    assert_eq!(states(&engine), vec![ProcessState::Ready]);
    assert_eq!(timings(&engine), vec![(2, 0, 0)]);
    assert_eq!(next(&mut engine), SchedulingDecision::Panic);
}

#[test]
fn execution_never_exceeds_age() {
    let mut engine = PriorityRoundRobin::new(4, 2);
    let script = [
        StopReason::Syscall { syscall: Syscall::Fork(1), remaining: 0 },
        StopReason::Syscall { syscall: Syscall::Fork(2), remaining: 3 },
        StopReason::Expired,
        StopReason::Syscall { syscall: Syscall::Sleep(2), remaining: 1 },
        StopReason::Syscall { syscall: Syscall::Wait(2), remaining: 2 },
        StopReason::Expired,
        StopReason::Syscall { syscall: Syscall::Signal(2), remaining: 1 },
        StopReason::Syscall { syscall: Syscall::Fork(3), remaining: 2 },
        StopReason::Expired,
        StopReason::Expired,
        StopReason::Syscall { syscall: Syscall::Exit, remaining: 1 },
        StopReason::Expired,
    ];
    for reason in script {
        stop(&mut engine, reason);
        for _ in 0..2 {
            let decision = next(&mut engine);
            assert_ne!(decision, SchedulingDecision::Done);
            for process in engine.list() {
                let (total, _, execution) = process.timings();
                assert!(execution <= total);
            }
            for process in engine.list().iter().skip(1) {
                assert_ne!(process.state(), ProcessState::Running);
            }
            assert!(1 <= engine.remaining && engine.remaining <= engine.timeslice);
            if decision != SchedulingDecision::Panic {
                assert!(pids(&engine).contains(&1));
            }
            if let SchedulingDecision::Sleep(_) = decision {
                continue;
            }
            break;
        }
    }
}
