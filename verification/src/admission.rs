//! Run-time tests of what the operations of the engine require, for callers
//! outside verified code.

use vstd::prelude::*;
use crate::priority_round_robin::PriorityRoundRobin;
use crate::types::{StopReason, Syscall};

verus! {

impl PriorityRoundRobin {
    /// Whether every record from index `from` on can age by `delta` ticks
    /// without its counter leaving the machine word.
    fn ages_fit(&self, from: usize, delta: usize) -> (ok: bool)
        ensures
            ok <==> forall|i: int|
                from <= i < self@.table.len() ==> (#[trigger] self@.table[i]).total + delta
                    <= usize::MAX,
    {
        let mut i: usize = from;
        while i < self.processes.len()
            invariant
                from <= i,
                forall|j: int|
                    from <= j < i && j < self@.table.len() ==> (#[trigger] self@.table[j]).total
                        + delta <= usize::MAX,
            decreases self.processes@.len() - i,
        {
            if self.processes[i].timings().0 > usize::MAX - delta {
                assert(self@.table[i as int].total + delta > usize::MAX);
                return false;
            }
            i = i + 1;
        }
        true
    }

    /// Whether a sleep request can be accounted for in machine words.
    fn can_sleep(&self, duration: usize, remaining: usize) -> (ok: bool)
        ensures
            ok == (self@.sleep_defined(remaining) && self@.sleep(duration, remaining).fits()),
    {
        proof {
            self.lemma_fits();
        }
        if remaining > self.timeslice {
            return false;
        }
        let len = self.processes.len();
        if len == 0 {
            return true;
        }
        let time = self.timeslice - remaining;
        let front = &self.processes[0];
        let (total, _, execution) = front.timings();
        if time == 0 && (execution == 0 || total == 0) {
            return false;
        }
        let front_fits = time == 0 || (total <= usize::MAX - (time - 1) && execution <= usize::MAX
            - (time - 1));
        let rest_fit = self.ages_fit(1, time);
        proof {
            let after = self@.sleep(duration, remaining);
            if !front_fits {
                assert(!after.table[len - 1].fits());
            } else if !rest_fit {
                let i = choose|i: int|
                    1 <= i < self@.table.len() && !((#[trigger] self@.table[i]).total + time
                        <= usize::MAX);
                assert(!after.table[i - 1].fits());
            } else {
                assert forall|k: int| 0 <= k < after.table.len() implies (
                #[trigger] after.table[k]).fits() by {
                }
            }
        }
        front_fits && rest_fit
    }

    /// Whether an exit can be accounted for in machine words.
    fn can_exit(&self, remaining: usize) -> (ok: bool)
        ensures
            ok == (remaining <= self.remaining && self@.exit(remaining).fits()),
    {
        proof {
            self.lemma_fits();
        }
        if remaining > self.remaining {
            return false;
        }
        let time = self.remaining - remaining;
        let rest_fit = self.ages_fit(1, time);
        proof {
            let after = self@.exit(remaining);
            if self@.table.len() > 0 {
                if !rest_fit {
                    let i = choose|i: int|
                        1 <= i < self@.table.len() && !((#[trigger] self@.table[i]).total + time
                            <= usize::MAX);
                    assert(!after.table[i - 1].fits());
                } else {
                    assert forall|k: int| 0 <= k < after.table.len() implies (
                    #[trigger] after.table[k]).fits() by {
                    }
                }
            }
        }
        rest_fit
    }

    /// Whether an expiry can be accounted for in machine words.
    fn can_expire(&self) -> (ok: bool)
        ensures
            ok == self@.expire().fits(),
    {
        proof {
            self.lemma_fits();
        }
        let len = self.processes.len();
        if len == 0 {
            return true;
        }
        let time = self.remaining;
        let front = &self.processes[0];
        let front_fits = front.timings().2 <= usize::MAX - time;
        let all_fit = self.ages_fit(0, time);
        proof {
            let after = self@.expire();
            if !all_fit {
                let i = choose|i: int|
                    0 <= i < self@.table.len() && !((#[trigger] self@.table[i]).total + time
                        <= usize::MAX);
                let k: int = if i == 0 {
                    len - 1
                } else {
                    i - 1
                };
                assert(!after.table[k].fits());
            } else if !front_fits {
                assert(!after.table[len - 1].fits());
            } else {
                assert forall|k: int| 0 <= k < after.table.len() implies (
                #[trigger] after.table[k]).fits() by {
                }
            }
        }
        front_fits && all_fit
    }

    /// Whether `stop` may be called with this report: the ticks reported left
    /// are no more than the ticks they are measured against, a process that
    /// asks to sleep has a tick to give back, and every counter stays within
    /// the machine word.
    pub fn can_stop(&self, reason: StopReason) -> (ok: bool)
        ensures
            ok == (self@.stop_defined(reason) && self@.stop(reason).fits()),
    {
        proof {
            self.lemma_fits();
        }
        match reason {
            StopReason::Syscall { syscall, remaining } => match syscall {
                Syscall::Fork(priority) => {
                    let ok = self.processes.len() < usize::MAX;
                    proof {
                        let after = self@.fork(priority, remaining);
                        if ok {
                            assert forall|k: int| 0 <= k < after.table.len() implies (
                            #[trigger] after.table[k]).fits() by {
                            }
                        }
                    }
                    ok
                },
                Syscall::Sleep(duration) => {
                    assert(self@.noted().sleep(duration, remaining).table == self@.sleep(
                        duration,
                        remaining,
                    ).table);
                    self.can_sleep(duration, remaining)
                },
                Syscall::Wait(target) => {
                    proof {
                        let after = self@.noted().wait(target);
                        assert forall|k: int| 0 <= k < after.table.len() implies (
                        #[trigger] after.table[k]).fits() by {
                        }
                    }
                    true
                },
                Syscall::Signal(target) => {
                    proof {
                        let after = self@.noted().signal(target);
                        assert forall|k: int| 0 <= k < after.table.len() implies (
                        #[trigger] after.table[k]).fits() by {
                        }
                    }
                    true
                },
                Syscall::Exit => self.can_exit(remaining),
            },
            StopReason::Expired => self.can_expire(),
        }
    }

    /// Whether `next` may be called: every counter stays within the machine
    /// word.
    pub fn can_next(&self) -> (ok: bool)
        ensures
            ok == self@.next().fits(),
    {
        proof {
            self.lemma_fits();
        }
        let len = self.processes.len();
        if len == 0 || !self.has_init() {
            return true;
        }
        let ghost settled = self@.settled();
        proof {
            settled.lemma_dispatch_fits();
        }
        let charged = self.syscall;
        let bound = if self.fork_syscall && len > 1 {
            len - 1
        } else {
            len
        };
        let nap: usize = if self.processes[0].has_sleep_time() {
            self.processes[0].sleep_time()
        } else {
            0
        };
        if charged && self.processes[0].timings().1 == usize::MAX {
            return false;
        }
        let mut i: usize = 0;
        while i < len
            invariant
                i <= len,
                len == self@.table.len(),
                len > 0,
                settled == self@.settled(),
                self@.next().fits() == settled.fits(),
                charged == self@.syscall,
                bound == self@.tick_bound(),
                nap == if self@.table[0].has_sleep_time {
                    self@.table[0].sleep_time
                } else {
                    0
                },
                charged ==> self@.table[0].syscalls < usize::MAX,
                self@.fits(),
                forall|j: int| 0 <= j < i ==> (#[trigger] settled.table[j]).fits(),
            decreases len - i,
        {
            let process = &self.processes[i];
            let tick: usize = if charged && i < bound {
                1
            } else {
                0
            };
            let total = process.timings().0;
            if total > usize::MAX - tick || total + tick > usize::MAX - nap {
                return false;
            }
            assert(settled.table[i as int].fits());
            i = i + 1;
        }
        true
    }
}

} // verus!
