//! The scheduling engine: the process table and the operations on it.

use std::collections::VecDeque;
use vstd::prelude::*;
use crate::model::{age, block, unblock, Engine, Record};
use crate::process::ProcessInfo;
use crate::types::{Pid, ProcessState, SchedulingDecision, StopReason, Syscall, SyscallResult};

verus! {

/// The values of the records of a table, in order.
pub open spec fn records(table: Seq<ProcessInfo>) -> Seq<Record> {
    table.map_values(|p: ProcessInfo| p@)
}

/// Ages the first `upto` records of the table by `delta` ticks.
fn age_first(table: &mut VecDeque<ProcessInfo>, upto: usize, delta: usize)
    requires
        forall|i: int|
            0 <= i < old(table)@.len() && i < upto ==> (#[trigger] old(table)@[i])@.total + delta
                <= usize::MAX,
    ensures
        final(table)@.len() == old(table)@.len(),
        records(final(table)@) == age(records(old(table)@), upto as int, delta as nat),
{
    let ghost before = table@;
    let n = table.len();
    let mut i: usize = 0;
    while i < n
        invariant
            i <= n,
            table@.len() == n,
            before.len() == n,
            forall|j: int| 0 <= j < n - i ==> #[trigger] table@[j] == before[i + j],
            forall|k: int|
                n - i <= k < n ==> (#[trigger] table@[k])@ == age(
                    records(before),
                    upto as int,
                    delta as nat,
                )[k - (n - i)],
            forall|j: int|
                0 <= j < n && j < upto ==> (#[trigger] before[j])@.total + delta <= usize::MAX,
        decreases n - i,
    {
        let ghost current = table@;
        match table.pop_front() {
            Some(mut process) => {
                assert(process == before[i as int]);
                if i < upto {
                    process.age(delta);
                }
                table.push_back(process);
                assert forall|j: int| 0 <= j < n - (i + 1) implies #[trigger] table@[j] == before[i
                    + 1 + j] by {
                }
            },
            None => {},
        }
        i = i + 1;
    }
}

/// Blocks every record of the table with identifier `target` until `target`
/// is signalled.
fn block_matching(table: &mut VecDeque<ProcessInfo>, target: usize)
    ensures
        records(final(table)@) == block(records(old(table)@), target),
{
    let ghost before = table@;
    let n = table.len();
    let mut i: usize = 0;
    while i < n
        invariant
            i <= n,
            table@.len() == n,
            before.len() == n,
            forall|j: int| 0 <= j < n - i ==> #[trigger] table@[j] == before[i + j],
            forall|k: int|
                n - i <= k < n ==> (#[trigger] table@[k])@ == block(records(before), target)[k - (n
                    - i)],
        decreases n - i,
    {
        let ghost current = table@;
        match table.pop_front() {
            Some(mut process) => {
                assert(process == before[i as int]);
                if process.pid().as_usize() == target {
                    process.set_state(ProcessState::Waiting { event: Some(target) });
                }
                table.push_back(process);
                assert forall|j: int| 0 <= j < n - (i + 1) implies #[trigger] table@[j] == before[i
                    + 1 + j] by {
                }
            },
            None => {},
        }
        i = i + 1;
    }
}

/// Makes every record of the table with identifier `target` that is blocked
/// until `target` is signalled ready again.
fn unblock_matching(table: &mut VecDeque<ProcessInfo>, target: usize)
    ensures
        records(final(table)@) == unblock(records(old(table)@), target),
{
    let ghost before = table@;
    let n = table.len();
    let mut i: usize = 0;
    while i < n
        invariant
            i <= n,
            table@.len() == n,
            before.len() == n,
            forall|j: int| 0 <= j < n - i ==> #[trigger] table@[j] == before[i + j],
            forall|k: int|
                n - i <= k < n ==> (#[trigger] table@[k])@ == unblock(records(before), target)[k
                    - (n - i)],
        decreases n - i,
    {
        let ghost current = table@;
        match table.pop_front() {
            Some(mut process) => {
                assert(process == before[i as int]);
                if process.pid().as_usize() == target {
                    match process.state() {
                        ProcessState::Waiting { event: Some(awaited) } => {
                            if awaited == target {
                                process.set_state(ProcessState::Ready);
                            }
                        },
                        _ => {},
                    }
                }
                table.push_back(process);
                assert forall|j: int| 0 <= j < n - (i + 1) implies #[trigger] table@[j] == before[i
                    + 1 + j] by {
                }
            },
            None => {},
        }
        i = i + 1;
    }
}

/// The priority round-robin scheduling engine.
pub struct PriorityRoundRobin {
    /// The process table, front first.
    pub processes: VecDeque<ProcessInfo>,
    /// Whether the last report was a system call whose tick is still to be
    /// credited.
    pub syscall: bool,
    /// Whether that system call was a fork.
    pub fork_syscall: bool,
    /// The slice granted on a fresh dispatch.
    pub timeslice: usize,
    /// What is left of the slice granted last.
    pub remaining: usize,
    /// The least remainder of a slice that is worth granting again.
    pub minimum_remaining_timeslice: usize,
}

impl View for PriorityRoundRobin {
    type V = Engine;

    open spec fn view(&self) -> Engine {
        Engine {
            table: records(self.processes@),
            syscall: self.syscall,
            fork_syscall: self.fork_syscall,
            timeslice: self.timeslice,
            remaining: self.remaining,
            minimum_remaining_timeslice: self.minimum_remaining_timeslice,
        }
    }
}

impl PriorityRoundRobin {
    /// An engine with an empty table that grants slices of `timeslice` ticks
    /// and grants a partly used slice again while at least
    /// `minimum_remaining_timeslice` ticks of it are left.
    pub fn new(timeslice: usize, minimum_remaining_timeslice: usize) -> (engine: PriorityRoundRobin)
        ensures
            engine@ == Engine::initial(timeslice, minimum_remaining_timeslice),
            timeslice >= 1 ==> engine@.wf(),
    {
        let engine = PriorityRoundRobin {
            processes: VecDeque::new(),
            syscall: false,
            fork_syscall: false,
            timeslice,
            remaining: timeslice,
            minimum_remaining_timeslice,
        };
        assert(engine@.table =~= Seq::empty());
        engine
    }

    /// Creates a process with the given priority on behalf of the running
    /// process, which has `remaining` ticks of its slice left, and answers
    /// with the identifier of the child.
    pub fn fork(&mut self, priority: i8, remaining: usize) -> (result: SyscallResult)
        requires
            old(self)@.fork(priority, remaining).fits(),
        ensures
            final(self)@ == old(self)@.fork(priority, remaining),
            result == SyscallResult::Pid(old(self)@.fork_pid()),
            old(self)@.wf() && remaining <= old(self).timeslice ==> final(self)@.wf(),
    {
        let bootstrap = self.processes.len() == 0;
        let pid = Pid::new(self.processes.len() + 1);
        let state = if bootstrap {
            ProcessState::Running
        } else {
            ProcessState::Ready
        };
        let process = ProcessInfo::spawn(pid, state, priority);
        if !bootstrap {
            self.syscall = true;
            self.fork_syscall = true;
        }
        if remaining != 0 {
            self.remaining = remaining;
        }
        self.processes.push_back(process);
        assert(self@.table =~= old(self)@.fork(priority, remaining).table);
        SyscallResult::Pid(pid)
    }

    /// Puts the running process to sleep for `duration` ticks; it reported
    /// `remaining` ticks of its slice left. Answers `NoRunningProcess` on an
    /// empty table.
    pub fn sleep(&mut self, duration: usize, remaining: usize) -> (result: SyscallResult)
        requires
            old(self)@.sleep_defined(remaining),
            old(self)@.sleep(duration, remaining).fits(),
        ensures
            final(self)@ == old(self)@.sleep(duration, remaining),
            result == old(self)@.sleep_result(),
            old(self)@.wf() ==> final(self)@.wf(),
    {
        let time = self.timeslice - remaining;
        let ghost after = old(self)@.sleep(duration, remaining);
        match self.processes.pop_front() {
            Some(mut process) => {
                let rest = self.processes.len();
                assert forall|i: int| 0 <= i < rest implies (#[trigger] self.processes@[i])@.total
                    + time <= usize::MAX by {
                    assert(after.table[i].fits());
                }
                assert(after.table[rest as int].fits());
                age_first(&mut self.processes, rest, time);
                process.fall_asleep(time, duration);
                self.syscall = true;
                self.fork_syscall = false;
                let ghost aged = self.processes@;
                self.processes.push_back(process);
                assert(self@.table =~= after.table) by {
                    assert(records(self.processes@) =~= records(aged).push(process@));
                }
                SyscallResult::Success
            },
            None => SyscallResult::NoRunningProcess,
        }
    }

    /// Blocks every process with identifier `pid_to_wait` until that
    /// identifier is signalled.
    pub fn wait(&mut self, pid_to_wait: usize) -> (result: SyscallResult)
        ensures
            final(self)@ == old(self)@.wait(pid_to_wait),
            result == SyscallResult::Success,
            old(self)@.wf() ==> final(self)@.wf(),
    {
        block_matching(&mut self.processes, pid_to_wait);
        SyscallResult::Success
    }

    /// Makes every process with identifier `processid` that is blocked until
    /// that identifier is signalled ready again.
    pub fn signal(&mut self, processid: usize) -> (result: SyscallResult)
        ensures
            final(self)@ == old(self)@.signal(processid),
            result == SyscallResult::Success,
            old(self)@.wf() ==> final(self)@.wf(),
    {
        unblock_matching(&mut self.processes, processid);
        SyscallResult::Success
    }

    /// Removes the running process, which reported `remaining` ticks of its
    /// slice left, after crediting the ticks it consumed.
    fn exit(&mut self, remaining: usize)
        requires
            remaining <= old(self).remaining,
            old(self)@.exit(remaining).fits(),
        ensures
            final(self)@ == old(self)@.exit(remaining),
            old(self)@.wf() ==> final(self)@.wf(),
    {
        let time = self.remaining - remaining;
        let ghost after = old(self)@.exit(remaining);
        match self.processes.pop_front() {
            Some(_) => {
                let rest = self.processes.len();
                assert forall|i: int| 0 <= i < rest implies (#[trigger] self.processes@[i])@.total
                    + time <= usize::MAX by {
                    assert(after.table[i].fits());
                }
                age_first(&mut self.processes, rest, time);
                assert(self@.table =~= after.table);
            },
            None => {},
        }
    }

    /// Moves the running process, whose slice is used up, to the back of the
    /// table after crediting the whole slice, and renews the slice.
    fn expire(&mut self)
        requires
            old(self)@.expire().fits(),
        ensures
            final(self)@ == old(self)@.expire(),
            old(self)@.wf() ==> final(self)@.wf(),
    {
        let time = self.remaining;
        let ghost after = old(self)@.expire();
        match self.processes.pop_front() {
            Some(mut process) => {
                let rest = self.processes.len();
                assert forall|i: int| 0 <= i < rest implies (#[trigger] self.processes@[i])@.total
                    + time <= usize::MAX by {
                    assert(after.table[i].fits());
                }
                assert(after.table[rest as int].fits());
                age_first(&mut self.processes, rest, time);
                process.run(time);
                process.set_state(ProcessState::Ready);
                self.remaining = self.timeslice;
                let ghost aged = self.processes@;
                self.processes.push_back(process);
                assert(self@.table =~= after.table) by {
                    assert(records(self.processes@) =~= records(aged).push(process@));
                }
            },
            None => {},
        }
    }

    /// Whether the table holds a record of the init process.
    pub(crate) fn has_init(&self) -> (found: bool)
        ensures
            found == self@.has_init(),
    {
        let mut i: usize = 0;
        while i < self.processes.len()
            invariant
                i <= self.processes@.len(),
                forall|j: int| 0 <= j < i ==> (#[trigger] self@.table[j]).pid.0 != 1,
            decreases self.processes@.len() - i,
        {
            if self.processes[i].pid().as_usize() == 1 {
                assert(self@.table[i as int].pid.0 == 1);
                return true;
            }
            i = i + 1;
        }
        false
    }

    /// Takes the front process out of the table and does the accounting that
    /// precedes a dispatch: the tick of a pending system call, the count of
    /// that system call, and the credit of a served sleep.
    fn settle(&mut self) -> (front: ProcessInfo)
        requires
            old(self)@.table.len() > 0,
            old(self)@.settled().fits(),
        ensures
            seq![front@] + final(self)@.table == old(self)@.settled().table,
            final(self)@ == (Engine { table: final(self)@.table, ..old(self)@.settled() }),
    {
        let ghost before = self@;
        let ghost t = before.accounted();
        let ghost ticked = if before.syscall {
            let charged = age(before.table, before.tick_bound(), 1);
            charged.update(0, charged[0].counted())
        } else {
            before.table
        };
        let len = self.processes.len();
        match self.processes.pop_front() {
            Some(mut process) => {
                if self.syscall {
                    let upto = if self.fork_syscall && len > 1 {
                        len - 2
                    } else {
                        len - 1
                    };
                    assert forall|i: int| 0 <= i < len - 1 && i < upto implies (
                    #[trigger] self.processes@[i])@.total + 1 <= usize::MAX by {
                        assert(t[i + 1].fits());
                    }
                    age_first(&mut self.processes, upto, 1);
                    process.age(1);
                    process.count();
                    self.syscall = false;
                    self.fork_syscall = false;
                }
                assert(records(self.processes@) =~= ticked.subrange(1, len as int));
                if process.has_sleep_time() {
                    let nap = process.sleep_time();
                    let ghost queued = self.processes@;
                    assert forall|i: int| 0 <= i < len - 1 implies (#[trigger] queued[i])@.total
                        + nap <= usize::MAX by {
                        assert(queued[i]@ == ticked.subrange(1, len as int)[i]);
                        assert(t[i + 1].fits());
                    }
                    assert(t[0].fits());
                    age_first(&mut self.processes, len - 1, nap);
                    process.wake();
                    assert forall|i: int| 0 <= i < len - 1 implies records(self.processes@)[i]
                        == t[i + 1] by {
                        assert(queued[i]@ == ticked.subrange(1, len as int)[i]);
                    }
                }
                process
            },
            None => unreached(),
        }
    }

    /// Puts `front`, the accounted front process, back into the table and
    /// decides what the driver is to do next.
    fn dispatch(&mut self, front: ProcessInfo) -> (decision: SchedulingDecision)
        ensures
            final(self)@ == (Engine {
                table: seq![front@] + old(self)@.table,
                ..old(self)@
            }).dispatch(),
            decision == (Engine { table: seq![front@] + old(self)@.table, ..old(self)@ }).grant(),
    {
        let ghost rest = self.processes@;
        let ghost t = seq![front@] + records(rest);
        let ghost after = (Engine { table: t, ..self@ }).dispatch();
        let mut process = front;
        let sleeps = match process.state() {
            ProcessState::Waiting { event: None } => true,
            _ => false,
        };
        if sleeps {
            process.doze();
            let duration = process.sleep_time();
            self.processes.push_front(process);
            assert(self@.table =~= after.table);
            return SchedulingDecision::Sleep(duration);
        }
        if self.remaining >= self.minimum_remaining_timeslice {
            process.set_state(ProcessState::Running);
            let pid = process.pid();
            self.processes.push_front(process);
            assert(self@.table =~= after.table);
            return SchedulingDecision::Run { pid, timeslice: self.remaining };
        }
        self.remaining = self.timeslice;
        match self.processes.pop_front() {
            Some(mut second) => {
                second.set_state(ProcessState::Running);
                process.set_state(ProcessState::Ready);
                let pid = second.pid();
                let ghost others = self.processes@;
                self.processes.push_back(process);
                self.processes.push_front(second);
                assert(self@.table =~= after.table) by {
                    assert(second@ == t[1].with_state(ProcessState::Running));
                    assert(records(others) =~= t.subrange(2, t.len() as int)) by {
                        assert forall|i: int| 0 <= i < others.len() implies records(others)[i]
                            == t[i + 2] by {
                        }
                    }
                    assert(records(self.processes@) =~= seq![second@] + records(others)
                        + seq![process@]);
                }
                SchedulingDecision::Run { pid, timeslice: self.timeslice }
            },
            None => {
                process.set_state(ProcessState::Running);
                let pid = process.pid();
                self.processes.push_front(process);
                assert(self@.table =~= after.table);
                SchedulingDecision::Run { pid, timeslice: self.remaining }
            },
        }
    }

    /// Decides what the driver is to do next and prepares the table for it.
    ///
    /// Answers `Done` on an empty table and `Panic` where the init process is
    /// gone while other processes remain; neither changes anything. Otherwise
    /// the tick of a pending system call and a served sleep are accounted
    /// for, and the front process is asked to sleep, runs on with what is left
    /// of its slice, or gives way to the second process with a fresh slice.
    pub fn next(&mut self) -> (decision: SchedulingDecision)
        requires
            old(self)@.next().fits(),
        ensures
            final(self)@ == old(self)@.next(),
            decision == old(self)@.decision(),
            decision is Done <==> old(self)@.table.len() == 0,
            decision is Panic <==> old(self)@.init_missing(),
            old(self)@.wf() ==> final(self)@.wf(),
    {
        if self.processes.len() == 0 {
            return SchedulingDecision::Done;
        }
        if !self.has_init() {
            return SchedulingDecision::Panic;
        }
        proof {
            self@.settled().lemma_dispatch_fits();
        }
        let front = self.settle();
        self.dispatch(front)
    }

    /// Takes the report of why the running process stopped and updates the
    /// table and the accounting for it.
    pub fn stop(&mut self, reason: StopReason) -> (result: SyscallResult)
        requires
            old(self)@.stop_defined(reason),
            old(self)@.stop(reason).fits(),
        ensures
            final(self)@ == old(self)@.stop(reason),
            result == old(self)@.stop_result(reason),
            old(self)@.wf() && old(self)@.stop_conforms(reason) ==> final(self)@.wf(),
    {
        match reason {
            StopReason::Syscall { syscall, remaining } => match syscall {
                Syscall::Fork(priority) => self.fork(priority, remaining),
                Syscall::Sleep(duration) => {
                    self.syscall = true;
                    self.sleep(duration, remaining)
                },
                Syscall::Wait(pid_to_wait) => {
                    self.syscall = true;
                    self.wait(pid_to_wait)
                },
                Syscall::Signal(pid) => {
                    self.syscall = true;
                    self.signal(pid)
                },
                Syscall::Exit => {
                    self.exit(remaining);
                    SyscallResult::Success
                },
            },
            StopReason::Expired => {
                self.expire();
                SyscallResult::Success
            },
        }
    }

    /// The value of an engine held by the machine fits in a machine word.
    pub proof fn lemma_fits(&self)
        ensures
            self@.fits(),
    {
        assert forall|i: int| 0 <= i < self@.table.len() implies (
        #[trigger] self@.table[i]).fits() by {
            self.processes@[i].lemma_fits();
        }
        assert(self.processes.len() == self.processes@.len());
    }

    /// The records of the table, front first.
    pub fn list(&self) -> (list: Vec<&ProcessInfo>)
        ensures
            list@.len() == self.processes@.len(),
            forall|i: int| 0 <= i < list@.len() ==> *list@[i] == self.processes@[i],
            forall|i: int| 0 <= i < list@.len() ==> (#[trigger] list@[i])@ == self@.table[i],
    {
        let mut list: Vec<&ProcessInfo> = Vec::new();
        let mut i: usize = 0;
        while i < self.processes.len()
            invariant
                i <= self.processes@.len(),
                list@.len() == i,
                forall|j: int| 0 <= j < i ==> *list@[j] == self.processes@[j],
            decreases self.processes@.len() - i,
        {
            list.push(&self.processes[i]);
            i = i + 1;
        }
        list
    }
}

} // verus!
