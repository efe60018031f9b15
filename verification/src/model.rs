//! The mathematical model of the scheduling engine.
//!
//! A [`Record`] is the value of one process record and an [`Engine`] the value
//! of the whole engine. Counters are natural numbers here, so the model never
//! overflows. Every operation of the engine is a function from `Engine` to
//! `Engine`; the executable code is proved to compute exactly these functions.

use vstd::prelude::*;
use crate::types::{Pid, ProcessState, SchedulingDecision, StopReason, Syscall, SyscallResult};

verus! {

/// The value of one process record.
pub struct Record {
    /// The identifier given at creation.
    pub pid: Pid,
    /// What the process is doing.
    pub state: ProcessState,
    /// Ticks elapsed since creation.
    pub total: nat,
    /// Completed system calls.
    pub syscalls: nat,
    /// Ticks spent on the processor.
    pub execution: nat,
    /// The duration of the last sleep request.
    pub sleep_time: usize,
    /// Whether a sleep decision has been handed out for this record and its
    /// duration is still to be credited.
    pub has_sleep_time: bool,
    /// The priority given at creation.
    pub priority: i8,
    /// Free-form diagnostic text.
    pub extra: Seq<char>,
}

impl Record {
    /// A newly created record: all counters zero, no sleep requested.
    pub open spec fn fresh(pid: Pid, state: ProcessState, priority: i8) -> Record {
        Record {
            pid,
            state,
            total: 0,
            syscalls: 0,
            execution: 0,
            sleep_time: 0,
            has_sleep_time: false,
            priority,
            extra: Seq::empty(),
        }
    }

    /// The record after `delta` ticks passed without it running.
    pub open spec fn aged(self, delta: nat) -> Record {
        Record { total: self.total + delta, ..self }
    }

    /// The record after it ran for `delta` ticks.
    pub open spec fn ran(self, delta: nat) -> Record {
        Record { total: self.total + delta, execution: self.execution + delta, ..self }
    }

    /// The record after one more completed system call.
    pub open spec fn counted(self) -> Record {
        Record { syscalls: self.syscalls + 1, ..self }
    }

    /// The record in another state.
    pub open spec fn with_state(self, state: ProcessState) -> Record {
        Record { state, ..self }
    }

    /// The record put to sleep for `duration` ticks: the tick that the request
    /// itself took is given back.
    pub open spec fn asleep(self, duration: usize) -> Record {
        Record {
            state: ProcessState::Waiting { event: None },
            total: (self.total - 1) as nat,
            execution: (self.execution - 1) as nat,
            sleep_time: duration,
            ..self
        }
    }

    /// The record after its sleep was served: the duration is credited to its
    /// age and it is ready again.
    pub open spec fn woken(self) -> Record {
        Record {
            state: ProcessState::Ready,
            total: self.total + self.sleep_time as nat,
            has_sleep_time: false,
            ..self
        }
    }

    /// The record marked as having been handed out in a sleep decision.
    pub open spec fn dozing(self) -> Record {
        Record { has_sleep_time: true, ..self }
    }

    /// Whether the record asked to sleep and has not been woken.
    pub open spec fn sleeps(self) -> bool {
        self.state == (ProcessState::Waiting { event: None })
    }

    /// Whether the record, once accounted for, is not asking to sleep: it
    /// never asked, or its sleep has been handed out already.
    pub open spec fn awake(self) -> bool {
        self.has_sleep_time || !self.sleeps()
    }

    /// Whether all three counters fit in a machine word.
    pub open spec fn fits(self) -> bool {
        &&& self.total <= usize::MAX
        &&& self.syscalls <= usize::MAX
        &&& self.execution <= usize::MAX
    }
}

/// The table after `delta` ticks were consumed by its front record: the front
/// record both ages and executes, every other record only ages.
pub open spec fn credit(table: Seq<Record>, delta: nat) -> Seq<Record> {
    Seq::new(
        table.len(),
        |i: int|
            if i == 0 {
                table[i].ran(delta)
            } else {
                table[i].aged(delta)
            },
    )
}

/// The table after `delta` ticks passed for its first `upto` records without
/// any of them running.
pub open spec fn age(table: Seq<Record>, upto: int, delta: nat) -> Seq<Record> {
    Seq::new(
        table.len(),
        |i: int|
            if i < upto {
                table[i].aged(delta)
            } else {
                table[i]
            },
    )
}

/// The table after the sleep of its front record was served: the front record
/// is woken, and every other record ages by the duration of that sleep.
pub open spec fn wake(table: Seq<Record>) -> Seq<Record> {
    Seq::new(
        table.len(),
        |i: int|
            if i == 0 {
                table[i].woken()
            } else {
                table[i].aged(table[0].sleep_time as nat)
            },
    )
}

/// The table after every record with identifier `target` was blocked until
/// `target` is signalled.
pub open spec fn block(table: Seq<Record>, target: usize) -> Seq<Record> {
    Seq::new(
        table.len(),
        |i: int|
            if table[i].pid.0 == target {
                table[i].with_state(ProcessState::Waiting { event: Some(target) })
            } else {
                table[i]
            },
    )
}

/// The table after every record with identifier `target` that was blocked
/// until `target` is signalled became ready.
pub open spec fn unblock(table: Seq<Record>, target: usize) -> Seq<Record> {
    Seq::new(
        table.len(),
        |i: int|
            if table[i].pid.0 == target && table[i].state == (ProcessState::Waiting {
                event: Some(target),
            }) {
                table[i].with_state(ProcessState::Ready)
            } else {
                table[i]
            },
    )
}

/// The value of the engine: the process table, front first, and the
/// scheduler-wide accounting fields.
pub struct Engine {
    /// The process records in queue order.
    pub table: Seq<Record>,
    /// Whether the last report was a system call whose tick is still to be
    /// credited.
    pub syscall: bool,
    /// Whether that system call was a fork.
    pub fork_syscall: bool,
    /// The slice granted on a fresh dispatch.
    pub timeslice: usize,
    /// What is left of the slice granted last.
    pub remaining: usize,
    /// The least remainder of a slice that is worth granting again.
    pub minimum_remaining_timeslice: usize,
}

impl Engine {
    /// The engine as constructed: an empty table and a full slice.
    pub open spec fn initial(timeslice: usize, minimum_remaining_timeslice: usize) -> Engine {
        Engine {
            table: Seq::empty(),
            syscall: false,
            fork_syscall: false,
            timeslice,
            remaining: timeslice,
            minimum_remaining_timeslice,
        }
    }

    /// The invariant of the engine: the remaining slice lies between one tick
    /// and the full slice, a fork is pending only while a system call is, no
    /// record has executed for longer than it has existed, and only the front
    /// record may be running.
    pub open spec fn wf(self) -> bool {
        &&& 1 <= self.remaining <= self.timeslice
        &&& self.fork_syscall ==> self.syscall
        &&& forall|i: int|
            0 <= i < self.table.len() ==> (#[trigger] self.table[i]).execution <= self.table[i].total
        &&& forall|i: int|
            1 <= i < self.table.len() ==> !((#[trigger] self.table[i]).state is Running)
    }

    /// Whether the table and every counter in it fit in a machine word.
    pub open spec fn fits(self) -> bool {
        &&& self.table.len() <= usize::MAX
        &&& forall|i: int| 0 <= i < self.table.len() ==> (#[trigger] self.table[i]).fits()
    }

    /// Whether the table holds a record of the init process.
    pub open spec fn has_init(self) -> bool {
        exists|i: int| 0 <= i < self.table.len() && (#[trigger] self.table[i]).pid.0 == 1
    }

    /// Whether the table holds records but none of the init process.
    pub open spec fn init_missing(self) -> bool {
        self.table.len() > 0 && !self.has_init()
    }

    /// The identifier that a fork hands out: one more than the number of
    /// records in the table.
    pub open spec fn fork_pid(self) -> Pid {
        Pid((self.table.len() + 1) as usize)
    }

    /// The engine after a fork with the given priority, reported with
    /// `remaining` ticks of the slice left.
    ///
    /// The child joins the back of the table. On an empty table it is the one
    /// running; otherwise it is ready and the fork is marked as pending. A
    /// non-zero `remaining` replaces the remaining slice.
    pub open spec fn fork(self, priority: i8, remaining: usize) -> Engine {
        let bootstrap: bool = self.table.len() == 0;
        let state: ProcessState = if bootstrap {
            ProcessState::Running
        } else {
            ProcessState::Ready
        };
        Engine {
            table: self.table.push(Record::fresh(self.fork_pid(), state, priority)),
            syscall: self.syscall || !bootstrap,
            fork_syscall: self.fork_syscall || !bootstrap,
            remaining: if remaining != 0 {
                remaining
            } else {
                self.remaining
            },
            ..self
        }
    }

    /// The ticks that the front record consumed before it asked to sleep with
    /// `remaining` ticks left, measured against the full slice.
    pub open spec fn sleep_credit(self, remaining: usize) -> nat {
        (self.timeslice - remaining) as nat
    }

    /// Whether a sleep request reported with `remaining` ticks left can be
    /// accounted for: the remainder is within the slice and the front record
    /// has a tick to give back.
    pub open spec fn sleep_defined(self, remaining: usize) -> bool {
        &&& remaining <= self.timeslice
        &&& self.table.len() > 0 ==> self.table[0].execution + self.sleep_credit(remaining) >= 1
            && self.table[0].total + self.sleep_credit(remaining) >= 1
    }

    /// The engine after the front record asked to sleep for `duration` ticks
    /// with `remaining` ticks left.
    ///
    /// The consumed ticks are credited, the front record is put to sleep and
    /// moved to the back, and a system call is marked as pending. An empty
    /// table is left as it is.
    pub open spec fn sleep(self, duration: usize, remaining: usize) -> Engine {
        if self.table.len() == 0 {
            self
        } else {
            let credited: Seq<Record> = credit(self.table, self.sleep_credit(remaining));
            Engine {
                table: credited.subrange(1, credited.len() as int).push(
                    credited[0].asleep(duration),
                ),
                syscall: true,
                fork_syscall: false,
                ..self
            }
        }
    }

    /// What a sleep request answers: it needs a running process.
    pub open spec fn sleep_result(self) -> SyscallResult {
        if self.table.len() == 0 {
            SyscallResult::NoRunningProcess
        } else {
            SyscallResult::Success
        }
    }

    /// The engine after a wait on `target`: every record with that identifier
    /// is blocked until `target` is signalled.
    pub open spec fn wait(self, target: usize) -> Engine {
        Engine { table: block(self.table, target), ..self }
    }

    /// The engine after a signal to `target`: every record with that
    /// identifier that was blocked until `target` is signalled is ready.
    pub open spec fn signal(self, target: usize) -> Engine {
        Engine { table: unblock(self.table, target), ..self }
    }

    /// The ticks that the front record consumed before it exited with
    /// `remaining` ticks left, measured against the remaining slice.
    pub open spec fn exit_credit(self, remaining: usize) -> nat {
        (self.remaining - remaining) as nat
    }

    /// The engine after the front record exited with `remaining` ticks left:
    /// the consumed ticks are credited and the front record is removed.
    pub open spec fn exit(self, remaining: usize) -> Engine {
        if self.table.len() == 0 {
            self
        } else {
            Engine {
                table: credit(self.table, self.exit_credit(remaining)).subrange(
                    1,
                    self.table.len() as int,
                ),
                ..self
            }
        }
    }

    /// The engine after the front record used up its slice: the whole
    /// remaining slice is credited, the front record becomes ready and moves
    /// to the back, and the remaining slice is the full slice again.
    pub open spec fn expire(self) -> Engine {
        if self.table.len() == 0 {
            self
        } else {
            let credited: Seq<Record> = credit(self.table, self.remaining as nat);
            Engine {
                table: credited.subrange(1, credited.len() as int).push(
                    credited[0].with_state(ProcessState::Ready),
                ),
                remaining: self.timeslice,
                ..self
            }
        }
    }

    /// The engine with a system call marked as pending.
    pub open spec fn noted(self) -> Engine {
        Engine { syscall: true, ..self }
    }

    /// Whether a stop report can be accounted for at all: the ticks reported
    /// left are no more than the ticks they are measured against, and a
    /// sleeping process has a tick to give back.
    pub open spec fn stop_defined(self, reason: StopReason) -> bool {
        match reason {
            StopReason::Syscall { syscall, remaining } => match syscall {
                Syscall::Fork(_) => true,
                Syscall::Sleep(_) => self.sleep_defined(remaining),
                Syscall::Wait(_) => true,
                Syscall::Signal(_) => true,
                Syscall::Exit => remaining <= self.remaining,
            },
            StopReason::Expired => true,
        }
    }

    /// Whether a stop report follows the protocol: no more ticks are reported
    /// left than were granted, and a sleeping process has a tick to give back.
    pub open spec fn stop_conforms(self, reason: StopReason) -> bool {
        match reason {
            StopReason::Syscall { syscall, remaining } => match syscall {
                Syscall::Fork(_) => remaining <= self.timeslice,
                Syscall::Sleep(_) => self.sleep_defined(remaining),
                Syscall::Wait(_) => true,
                Syscall::Signal(_) => true,
                Syscall::Exit => remaining <= self.remaining,
            },
            StopReason::Expired => true,
        }
    }

    /// The engine after a stop report.
    pub open spec fn stop(self, reason: StopReason) -> Engine {
        match reason {
            StopReason::Syscall { syscall, remaining } => match syscall {
                Syscall::Fork(priority) => self.fork(priority, remaining),
                Syscall::Sleep(duration) => self.noted().sleep(duration, remaining),
                Syscall::Wait(target) => self.noted().wait(target),
                Syscall::Signal(target) => self.noted().signal(target),
                Syscall::Exit => self.exit(remaining),
            },
            StopReason::Expired => self.expire(),
        }
    }

    /// What a stop report answers.
    pub open spec fn stop_result(self, reason: StopReason) -> SyscallResult {
        match reason {
            StopReason::Syscall { syscall, remaining } => match syscall {
                Syscall::Fork(_) => SyscallResult::Pid(self.fork_pid()),
                Syscall::Sleep(_) => self.sleep_result(),
                _ => SyscallResult::Success,
            },
            StopReason::Expired => SyscallResult::Success,
        }
    }

    /// How many records, from the front, are charged the tick of a pending
    /// system call: all of them, but for the newest child of a pending fork
    /// when it is not alone.
    pub open spec fn tick_bound(self) -> int {
        if self.fork_syscall && self.table.len() > 1 {
            self.table.len() - 1
        } else {
            self.table.len() as int
        }
    }

    /// The table of a non-empty engine after the accounting that precedes a
    /// dispatch: the tick of a pending system call is charged, the system call
    /// is counted for the front record, and a served sleep of the front record
    /// is credited.
    pub open spec fn accounted(self) -> Seq<Record> {
        let ticked: Seq<Record> = if self.syscall {
            let charged: Seq<Record> = age(self.table, self.tick_bound(), 1);
            charged.update(0, charged[0].counted())
        } else {
            self.table
        };
        if ticked[0].has_sleep_time {
            wake(ticked)
        } else {
            ticked
        }
    }

    /// The engine, its table not empty, after the accounting that precedes a
    /// dispatch, with the pending marks cleared if a system call was pending.
    pub open spec fn settled(self) -> Engine {
        Engine {
            table: self.accounted(),
            syscall: false,
            fork_syscall: self.fork_syscall && !self.syscall,
            ..self
        }
    }

    /// Whether the remaining slice is too short to be granted again.
    pub open spec fn slice_spent(self) -> bool {
        self.remaining < self.minimum_remaining_timeslice
    }

    /// The engine, its table not empty and accounted for, after the dispatch:
    /// - a front record that asked to sleep stays in front, marked as handed
    ///   out;
    /// - else, with enough of the slice left, the front record runs on;
    /// - else the slice is renewed, and the second record, if there is one,
    ///   runs in front while the former front record waits at the back.
    pub open spec fn dispatch(self) -> Engine {
        let t: Seq<Record> = self.table;
        if t[0].sleeps() {
            Engine { table: t.update(0, t[0].dozing()), ..self }
        } else if !self.slice_spent() {
            Engine { table: t.update(0, t[0].with_state(ProcessState::Running)), ..self }
        } else if t.len() > 1 {
            Engine {
                table: seq![t[1].with_state(ProcessState::Running)] + t.subrange(
                    2,
                    t.len() as int,
                ) + seq![t[0].with_state(ProcessState::Ready)],
                remaining: self.timeslice,
                ..self
            }
        } else {
            Engine {
                table: t.update(0, t[0].with_state(ProcessState::Running)),
                remaining: self.timeslice,
                ..self
            }
        }
    }

    /// What the dispatch tells the driver: to let the front record sleep, to
    /// run it on for the rest of its slice, or to run the record that is in
    /// front after the renewal for a full slice.
    pub open spec fn grant(self) -> SchedulingDecision {
        let t: Seq<Record> = self.table;
        if t[0].sleeps() {
            SchedulingDecision::Sleep(t[0].sleep_time)
        } else if !self.slice_spent() {
            SchedulingDecision::Run { pid: t[0].pid, timeslice: self.remaining }
        } else if t.len() > 1 {
            SchedulingDecision::Run { pid: t[1].pid, timeslice: self.timeslice }
        } else {
            SchedulingDecision::Run { pid: t[0].pid, timeslice: self.timeslice }
        }
    }

    /// The engine after a decision. An empty table, and one without the init
    /// process, are left as they are; otherwise the engine is accounted for
    /// and dispatched.
    pub open spec fn next(self) -> Engine {
        if self.table.len() == 0 || self.init_missing() {
            self
        } else {
            self.settled().dispatch()
        }
    }

    /// The decision taken in this state: `Done` on an empty table, `Panic`
    /// without the init process, else what the dispatch grants.
    pub open spec fn decision(self) -> SchedulingDecision {
        if self.table.len() == 0 {
            SchedulingDecision::Done
        } else if self.init_missing() {
            SchedulingDecision::Panic
        } else {
            self.settled().grant()
        }
    }

    /// A dispatch moves records and changes states, and leaves every counter
    /// as it is: the counters fit in a machine word after it exactly if they
    /// did before.
    pub proof fn lemma_dispatch_fits(self)
        requires
            self.table.len() > 0,
        ensures
            self.dispatch().fits() == self.fits(),
    {
        let t = self.table;
        let after = self.dispatch().table;
        let n = t.len() as int;
        let rotated = !t[0].sleeps() && self.slice_spent() && n > 1;
        if self.dispatch().fits() {
            assert forall|i: int| 0 <= i < n implies (#[trigger] t[i]).fits() by {
                let j: int = if !rotated {
                    i
                } else if i == 0 {
                    n - 1
                } else {
                    i - 1
                };
                assert(after[j].fits());
            }
        }
        if self.fits() {
            assert forall|j: int| 0 <= j < n implies (#[trigger] after[j]).fits() by {
                let i: int = if !rotated {
                    j
                } else if j == n - 1 {
                    0
                } else {
                    j + 1
                };
                assert(t[i].fits());
            }
        }
    }
}

} // verus!
