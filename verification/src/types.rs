//! The vocabulary shared by the engine and its driver: process identifiers,
//! process states, system calls, stop reasons, results and decisions.

use vstd::prelude::*;

verus! {

/// The identifier of a simulated process. Identifiers are positive; the
/// process with identifier 1 is the init process.
#[derive(Clone, Copy, Debug, PartialEq, Eq, Structural)]
pub struct Pid(pub usize);

impl Pid {
    /// Wraps a raw identifier.
    pub fn new(pid: usize) -> (p: Pid)
        ensures
            p == Pid(pid),
    {
        Pid(pid)
    }

    /// The raw identifier.
    pub fn as_usize(&self) -> (pid: usize)
        ensures
            pid == self.0,
    {
        self.0
    }
}

/// What a process is doing, as far as the scheduler is concerned.
#[derive(Clone, Copy, Debug, PartialEq, Eq, Structural)]
pub enum ProcessState {
    /// Runnable, waiting for the processor.
    Ready,
    /// Holding the processor.
    Running,
    /// Blocked. With `event: None` the process sleeps for a duration; with
    /// `event: Some(p)` it is blocked until process `p` signals.
    Waiting { event: Option<usize> },
}

/// A request made by the running process.
#[derive(Clone, Copy, Debug, PartialEq, Eq, Structural)]
pub enum Syscall {
    /// Create a process with the given priority.
    Fork(i8),
    /// Sleep for the given number of ticks.
    Sleep(usize),
    /// Block the process with the given identifier until it is signalled.
    Wait(usize),
    /// Wake the process with the given identifier if it waits for a signal.
    Signal(usize),
    /// Leave the table.
    Exit,
}

/// Why the running process gave up the processor.
#[derive(Clone, Copy, Debug, PartialEq, Eq, Structural)]
pub enum StopReason {
    /// It made a system call with `remaining` ticks of its slice left.
    Syscall { syscall: Syscall, remaining: usize },
    /// It used up its slice.
    Expired,
}

/// The outcome of a stop report.
#[derive(Clone, Copy, Debug, PartialEq, Eq, Structural)]
pub enum SyscallResult {
    /// A process was created with this identifier.
    Pid(Pid),
    /// The request was carried out.
    Success,
    /// The request needs a running process and the table is empty.
    NoRunningProcess,
}

/// What the driver is to do next.
#[derive(Clone, Copy, Debug, PartialEq, Eq, Structural)]
pub enum SchedulingDecision {
    /// Run process `pid` for at most `timeslice` ticks.
    Run { pid: Pid, timeslice: usize },
    /// Let the given number of ticks pass, then ask again.
    Sleep(usize),
    /// The init process is gone while other processes remain.
    Panic,
    /// No process is left.
    Done,
}

} // verus!
