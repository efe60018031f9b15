//! The process record as the machine holds it.

use vstd::prelude::*;
use crate::model::Record;
use crate::types::{Pid, ProcessState};

verus! {

/// One process record of the table. Its value is a [`Record`]; the counters
/// are machine words.
#[derive(Debug)]
pub struct ProcessInfo {
    pid: Pid,
    state: ProcessState,
    total: usize,
    syscalls: usize,
    execution: usize,
    sleep_time: usize,
    has_sleep_time: bool,
    priority: i8,
    extra: String,
}

impl View for ProcessInfo {
    type V = Record;

    closed spec fn view(&self) -> Record {
        Record {
            pid: self.pid,
            state: self.state,
            total: self.total as nat,
            syscalls: self.syscalls as nat,
            execution: self.execution as nat,
            sleep_time: self.sleep_time,
            has_sleep_time: self.has_sleep_time,
            priority: self.priority,
            extra: self.extra@,
        }
    }
}

impl Clone for ProcessInfo {
    /// A copy has the same value.
    fn clone(&self) -> (copy: ProcessInfo)
        ensures
            copy == *self,
    {
        ProcessInfo {
            pid: self.pid,
            state: self.state,
            total: self.total,
            syscalls: self.syscalls,
            execution: self.execution,
            sleep_time: self.sleep_time,
            has_sleep_time: self.has_sleep_time,
            priority: self.priority,
            extra: self.extra.clone(),
        }
    }
}

impl ProcessInfo {
    /// The identifier of the process.
    pub fn pid(&self) -> (pid: Pid)
        ensures
            pid == self@.pid,
    {
        self.pid
    }

    /// The state of the process.
    pub fn state(&self) -> (state: ProcessState)
        ensures
            state == self@.state,
    {
        self.state
    }

    /// The priority given to the process at creation.
    pub fn priority(&self) -> (priority: i8)
        ensures
            priority == self@.priority,
    {
        self.priority
    }

    /// The counters of the process: ticks since creation, completed system
    /// calls, ticks on the processor.
    pub fn timings(&self) -> (timings: (usize, usize, usize))
        ensures
            timings.0 == self@.total,
            timings.1 == self@.syscalls,
            timings.2 == self@.execution,
    {
        (self.total, self.syscalls, self.execution)
    }

    /// The diagnostic text of the process.
    pub fn extra(&self) -> (extra: String)
        ensures
            extra@ == self@.extra,
    {
        self.extra.clone()
    }

    /// The counters of a record held by the machine fit in a machine word.
    pub proof fn lemma_fits(&self)
        ensures
            self@.fits(),
    {
    }

    /// The duration of the last sleep request.
    pub(crate) fn sleep_time(&self) -> (duration: usize)
        ensures
            duration == self@.sleep_time,
    {
        self.sleep_time
    }

    /// Whether a sleep decision has been handed out for this record.
    pub(crate) fn has_sleep_time(&self) -> (handed_out: bool)
        ensures
            handed_out == self@.has_sleep_time,
    {
        self.has_sleep_time
    }

    /// A newly created record.
    pub(crate) fn spawn(pid: Pid, state: ProcessState, priority: i8) -> (process: ProcessInfo)
        ensures
            process@ == Record::fresh(pid, state, priority),
    {
        ProcessInfo {
            pid,
            state,
            total: 0,
            syscalls: 0,
            execution: 0,
            sleep_time: 0,
            has_sleep_time: false,
            priority,
            extra: String::new(),
        }
    }

    /// Lets `delta` ticks pass without the process running.
    pub(crate) fn age(&mut self, delta: usize)
        requires
            old(self)@.total + delta <= usize::MAX,
        ensures
            final(self)@ == old(self)@.aged(delta as nat),
    {
        self.total = self.total + delta;
    }

    /// Lets the process run for `delta` ticks.
    pub(crate) fn run(&mut self, delta: usize)
        requires
            old(self)@.total + delta <= usize::MAX,
            old(self)@.execution + delta <= usize::MAX,
        ensures
            final(self)@ == old(self)@.ran(delta as nat),
    {
        self.total = self.total + delta;
        self.execution = self.execution + delta;
    }

    /// Counts one more completed system call.
    pub(crate) fn count(&mut self)
        requires
            old(self)@.syscalls + 1 <= usize::MAX,
        ensures
            final(self)@ == old(self)@.counted(),
    {
        self.syscalls = self.syscalls + 1;
    }

    /// Puts the process into another state.
    pub(crate) fn set_state(&mut self, state: ProcessState)
        ensures
            final(self)@ == old(self)@.with_state(state),
    {
        self.state = state;
    }

    /// Credits the process with `delta` ticks of running and puts it to sleep
    /// for `duration` ticks, giving back the tick that the request took.
    pub(crate) fn fall_asleep(&mut self, delta: usize, duration: usize)
        requires
            1 <= old(self)@.total + delta <= usize::MAX + 1,
            1 <= old(self)@.execution + delta <= usize::MAX + 1,
        ensures
            final(self)@ == old(self)@.ran(delta as nat).asleep(duration),
    {
        if delta >= 1 {
            self.total = self.total + (delta - 1);
            self.execution = self.execution + (delta - 1);
        } else {
            self.total = self.total - 1;
            self.execution = self.execution - 1;
        }
        self.state = ProcessState::Waiting { event: None };
        self.sleep_time = duration;
    }

    /// Marks the process as handed out in a sleep decision.
    pub(crate) fn doze(&mut self)
        ensures
            final(self)@ == old(self)@.dozing(),
    {
        self.has_sleep_time = true;
    }

    /// Credits the served sleep to the age of the process and makes it ready.
    pub(crate) fn wake(&mut self)
        requires
            old(self)@.total + old(self)@.sleep_time <= usize::MAX,
        ensures
            final(self)@ == old(self)@.woken(),
    {
        self.total = self.total + self.sleep_time;
        self.has_sleep_time = false;
        self.state = ProcessState::Ready;
    }
}

} // verus!
