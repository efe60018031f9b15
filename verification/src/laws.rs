//! What holds of the engine across its operations, proved of the model that
//! the executable code follows.

use vstd::prelude::*;
use crate::model::{credit, Engine, Record};
use crate::types::{Pid, ProcessState, SchedulingDecision, StopReason, Syscall, SyscallResult};

verus! {

/// One call of the driver into the engine.
pub enum Call {
    /// A request for the next decision.
    Next,
    /// A stop report.
    Stop(StopReason),
}

impl Engine {
    /// Whether a call follows the protocol in this state.
    pub open spec fn conforms(self, call: Call) -> bool {
        match call {
            Call::Next => true,
            Call::Stop(reason) => self.stop_conforms(reason),
        }
    }

    /// The engine after a call.
    pub open spec fn apply(self, call: Call) -> Engine {
        match call {
            Call::Next => self.next(),
            Call::Stop(reason) => self.stop(reason),
        }
    }

    /// Whether every call of a sequence follows the protocol in the state in
    /// which it is made.
    pub open spec fn conforms_all(self, calls: Seq<Call>) -> bool
        decreases calls.len(),
    {
        calls.len() == 0 || (self.conforms(calls[0]) && self.apply(calls[0]).conforms_all(
            calls.drop_first(),
        ))
    }

    /// The engine after a sequence of calls.
    pub open spec fn apply_all(self, calls: Seq<Call>) -> Engine
        decreases calls.len(),
    {
        if calls.len() == 0 {
            self
        } else {
            self.apply(calls[0]).apply_all(calls.drop_first())
        }
    }

    /// The engine after one round for each entry of `left`: a decision, then
    /// the exit of the front process, which reports that many ticks left.
    pub open spec fn drained(self, left: Seq<usize>) -> Engine
        decreases left.len(),
    {
        if left.len() == 0 {
            self
        } else {
            self.next().exit(left[0]).drained(left.drop_first())
        }
    }
}

/// A decision keeps the number of records.
pub proof fn law_next_keeps_len(e: Engine)
    ensures
        e.next().table.len() == e.table.len(),
{
}

/// A newly constructed engine with a positive slice satisfies the invariant.
pub proof fn law_initial_wf(timeslice: usize, minimum_remaining_timeslice: usize)
    requires
        timeslice >= 1,
    ensures
        Engine::initial(timeslice, minimum_remaining_timeslice).wf(),
{
}

/// A decision preserves the invariant.
pub proof fn law_next_preserves_wf(e: Engine)
    requires
        e.wf(),
    ensures
        e.next().wf(),
{
}

/// A stop report that follows the protocol preserves the invariant.
pub proof fn law_stop_preserves_wf(e: Engine, reason: StopReason)
    requires
        e.wf(),
        e.stop_conforms(reason),
    ensures
        e.stop(reason).wf(),
{
}

/// A non-empty table holds a record of the init process, or else the decision
/// is `Panic`; and `Panic` is decided in no other state.
pub proof fn law_panic_iff_init_missing(e: Engine)
    ensures
        e.decision() is Panic <==> e.table.len() > 0 && !e.has_init(),
        e.decision() is Done <==> e.table.len() == 0,
        e.decision() is Panic ==> e.next() == e,
{
}

/// Every state that the protocol can reach from a newly constructed engine
/// satisfies the invariant: in particular no record has executed for longer
/// than it has existed. In such a state a non-empty table either holds a
/// record of the init process or makes the decision `Panic`.
pub proof fn law_reachable_wf(
    timeslice: usize,
    minimum_remaining_timeslice: usize,
    calls: Seq<Call>,
)
    requires
        timeslice >= 1,
        Engine::initial(timeslice, minimum_remaining_timeslice).conforms_all(calls),
    ensures
        ({
            let e = Engine::initial(timeslice, minimum_remaining_timeslice).apply_all(calls);
            &&& e.wf()
            &&& forall|i: int|
                0 <= i < e.table.len() ==> (#[trigger] e.table[i]).execution <= e.table[i].total
            &&& e.table.len() > 0 ==> e.has_init() || e.decision() is Panic
        }),
{
    let start = Engine::initial(timeslice, minimum_remaining_timeslice);
    law_calls_preserve_wf(start, calls);
}

/// Calls that follow the protocol preserve the invariant, however many they
/// are.
pub proof fn law_calls_preserve_wf(e: Engine, calls: Seq<Call>)
    requires
        e.wf(),
        e.conforms_all(calls),
    ensures
        e.apply_all(calls).wf(),
    decreases calls.len(),
{
    if calls.len() > 0 {
        match calls[0] {
            Call::Next => law_next_preserves_wf(e),
            Call::Stop(reason) => law_stop_preserves_wf(e, reason),
        }
        law_calls_preserve_wf(e.apply(calls[0]), calls.drop_first());
    }
}

/// Round-robin fairness: when the front process has used up its slice and the
/// slice is long enough to be granted, the process behind it is dispatched
/// next, for a full slice, provided that it is ready and that the init
/// process is in the table. The process that expired waits at the back.
pub proof fn law_round_robin(e: Engine)
    requires
        e.table.len() >= 2,
        e.has_init(),
        e.table[1].state is Ready,
        e.minimum_remaining_timeslice <= e.timeslice,
    ensures
        ({
            let expired = e.stop(StopReason::Expired);
            &&& expired.decision() == (SchedulingDecision::Run {
                pid: e.table[1].pid,
                timeslice: e.timeslice,
            })
            &&& expired.next().table[0].pid == e.table[1].pid
            &&& expired.next().table[0].state is Running
            &&& expired.next().table.last().pid == e.table[0].pid
            &&& expired.next().table.last().state is Ready
        }),
{
    let expired = e.stop(StopReason::Expired);
    let i = choose|i: int| 0 <= i < e.table.len() && (#[trigger] e.table[i]).pid.0 == 1;
    let j: int = if i == 0 {
        e.table.len() - 1
    } else {
        i - 1
    };
    assert(expired.table[j].pid.0 == 1);
}

/// Quantum reuse: when the front process is dispatched again while at least
/// the minimum of its slice is left, it is granted exactly what is left, not
/// a full slice, and what is left stays as it is.
pub proof fn law_quantum_reuse(e: Engine)
    requires
        e.table.len() > 0,
        e.has_init(),
        e.table[0].awake(),
        e.remaining >= e.minimum_remaining_timeslice,
    ensures
        e.decision() == (SchedulingDecision::Run { pid: e.table[0].pid, timeslice: e.remaining }),
        e.next().remaining == e.remaining,
        e.next().table[0].pid == e.table[0].pid,
        e.next().table[0].state is Running,
{
}

/// Quantum reuse after a fork: a parent that forks with `remaining` ticks of
/// its slice left, at least the minimum, is dispatched again for exactly
/// those ticks.
pub proof fn law_fork_resumes_parent(e: Engine, priority: i8, remaining: usize)
    requires
        e.table.len() > 0,
        e.has_init(),
        e.table[0].awake(),
        remaining >= 1,
        remaining >= e.minimum_remaining_timeslice,
    ensures
        e.fork(priority, remaining).decision() == (SchedulingDecision::Run {
            pid: e.table[0].pid,
            timeslice: remaining,
        }),
        e.fork(priority, remaining).next().remaining == remaining,
{
    let forked = e.fork(priority, remaining);
    let i = choose|i: int| 0 <= i < e.table.len() && (#[trigger] e.table[i]).pid.0 == 1;
    assert(forked.table[i].pid.0 == 1);
}

/// A front process that asked to sleep is handed to the driver with the
/// duration it asked for; it stays in front, marked as handed out, and the
/// remaining slice is untouched.
pub proof fn law_sleep_is_granted(e: Engine)
    requires
        e.table.len() > 0,
        e.has_init(),
        !e.table[0].awake(),
    ensures
        e.decision() == SchedulingDecision::Sleep(e.table[0].sleep_time),
        e.next().table[0].has_sleep_time,
        e.next().table[0].pid == e.table[0].pid,
        e.next().table[0].sleeps(),
        e.next().table[0].execution == e.table[0].execution,
        e.next().remaining == e.remaining,
{
}

/// Where the record that was in front before a decision stands after it: at
/// the back if the decision renewed the slice and promoted the record behind
/// it, else in front.
pub open spec fn front_after_next(e: Engine) -> int {
    if e.settled().table[0].sleeps() || !e.slice_spent() || e.table.len() == 1 {
        0
    } else {
        e.table.len() - 1
    }
}

/// Waking up: the decision that follows a handed-out sleep credits the sleep
/// duration to the age of the sleeper and leaves its execution time as it
/// was. The sleeper is awake again: running if it is dispatched at once,
/// ready at the back of the table if the slice was spent and another process
/// took the front.
pub proof fn law_wake(e: Engine)
    requires
        e.table.len() > 0,
        e.has_init(),
        e.table[0].has_sleep_time,
    ensures
        ({
            let sleeper = e.table[0];
            let woken = e.next().table[front_after_next(e)];
            let preempted = e.slice_spent() && e.table.len() > 1;
            &&& e.decision() is Run
            &&& woken.pid == sleeper.pid
            &&& woken.execution == sleeper.execution
            &&& woken.total == sleeper.total + sleeper.sleep_time + if e.syscall {
                1nat
            } else {
                0nat
            }
            &&& woken.total >= sleeper.total + sleeper.sleep_time
            &&& !woken.has_sleep_time
            &&& woken.state == if preempted {
                ProcessState::Ready
            } else {
                ProcessState::Running
            }
        }),
{
}

/// A served sleep passes for every process: the accounting that credits it to
/// the sleeper ages every record by the same duration, besides the tick of a
/// pending system call, and changes no execution time.
pub proof fn law_served_sleep_ages_everyone(e: Engine, i: int)
    requires
        e.table[0].has_sleep_time,
        0 <= i < e.table.len(),
    ensures
        e.accounted()[i].total == e.table[i].total + e.table[0].sleep_time + if e.syscall && i
            < e.tick_bound() {
            1nat
        } else {
            0nat
        },
        e.accounted()[i].execution == e.table[i].execution,
        e.accounted()[i].pid == e.table[i].pid,
{
}

/// Sleep round trip of a process that is alone in the table: the sleep
/// request is answered with a sleep decision of the same duration, and the
/// decision after that dispatches the process again with its age increased by
/// the duration and its execution time as the request left it.
pub proof fn law_sleep_round_trip(e: Engine, duration: usize, remaining: usize)
    requires
        e.wf(),
        e.table.len() == 1,
        e.table[0].pid.0 == 1,
        !e.table[0].has_sleep_time,
        e.sleep_defined(remaining),
    ensures
        ({
            let request = StopReason::Syscall { syscall: Syscall::Sleep(duration), remaining };
            let asked = e.stop(request);
            let asleep = asked.next();
            let awake = asleep.next();
            &&& e.stop_result(request) == SyscallResult::Success
            &&& asked.decision() == SchedulingDecision::Sleep(duration)
            &&& asleep.table[0].sleeps()
            &&& asleep.decision() is Run
            &&& awake.table.len() == 1
            &&& awake.table[0].state is Running
            &&& awake.table[0].total == asleep.table[0].total + duration
            &&& awake.table[0].execution == asked.table[0].execution
            &&& awake.table[0].execution == e.table[0].execution + e.sleep_credit(remaining) - 1
            &&& awake.table[0].syscalls == e.table[0].syscalls + 1
        }),
{
}

/// Fork bootstrap: a fork on an empty table creates process 1, running, and
/// marks nothing as pending; a second fork creates process 2, ready, and marks
/// a fork as pending. The accounting of the next decision then charges the
/// tick of the fork to the parent and not to the child, and counts the system
/// call for the parent.
pub proof fn law_fork_bootstrap(e: Engine, first: i8, second: i8, left: usize, remaining: usize)
    requires
        e.table.len() == 0,
    ensures
        ({
            let one = e.fork(first, left);
            let two = one.fork(second, remaining);
            &&& e.fork_pid() == Pid(1)
            &&& one.table == seq![Record::fresh(Pid(1), ProcessState::Running, first)]
            &&& one.syscall == e.syscall
            &&& one.fork_syscall == e.fork_syscall
            &&& one.fork_pid() == Pid(2)
            &&& two.table == seq![
                Record::fresh(Pid(1), ProcessState::Running, first),
                Record::fresh(Pid(2), ProcessState::Ready, second),
            ]
            &&& two.syscall
            &&& two.fork_syscall
            &&& two.accounted() == seq![
                Record::fresh(Pid(1), ProcessState::Running, first).aged(1).counted(),
                Record::fresh(Pid(2), ProcessState::Ready, second),
            ]
            &&& !two.next().syscall
            &&& !two.next().fork_syscall
        }),
{
    let two = e.fork(first, left).fork(second, remaining);
    assert(two.table =~= seq![
        Record::fresh(Pid(1), ProcessState::Running, first),
        Record::fresh(Pid(2), ProcessState::Ready, second),
    ]);
    assert(two.accounted() =~= seq![
        Record::fresh(Pid(1), ProcessState::Running, first).aged(1).counted(),
        Record::fresh(Pid(2), ProcessState::Ready, second),
    ]);
}

/// An exit takes one record out of a non-empty table, the front one, and
/// credits the ticks consumed to the others.
pub proof fn law_exit_removes_front(e: Engine, remaining: usize)
    requires
        e.table.len() > 0,
    ensures
        e.exit(remaining).table.len() == e.table.len() - 1,
        e.exit(remaining).table == credit(e.table, e.exit_credit(remaining)).subrange(
            1,
            e.table.len() as int,
        ),
{
}

/// Termination: after as many rounds of decision and exit as the table holds
/// records, the table is empty, the decision is `Done`, and further decisions
/// change nothing.
pub proof fn law_termination(e: Engine, left: Seq<usize>)
    requires
        left.len() == e.table.len(),
    ensures
        e.drained(left).table.len() == 0,
        e.drained(left).decision() == SchedulingDecision::Done,
        e.drained(left).next() == e.drained(left),
    decreases left.len(),
{
    if left.len() > 0 {
        law_termination(e.next().exit(left[0]), left.drop_first());
    }
}

/// A process that is alone in the table keeps the processor: after its fork
/// on an empty table it is dispatched for a full slice, and after that slice
/// expired it is ready, and dispatched for a full slice again.
pub proof fn law_single_process_keeps_running(
    timeslice: usize,
    minimum_remaining_timeslice: usize,
    priority: i8,
)
    requires
        timeslice >= 1,
    ensures
        ({
            let start = Engine::initial(timeslice, minimum_remaining_timeslice);
            let forked = start.fork(priority, 0);
            let run = SchedulingDecision::Run { pid: Pid(1), timeslice };
            let expired = forked.next().expire();
            &&& forked.decision() == run
            &&& expired.table.len() == 1
            &&& expired.table[0].state is Ready
            &&& expired.decision() == run
            &&& expired.next().table[0].state is Running
        }),
{
}

} // verus!
