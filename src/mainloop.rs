use vstd::prelude::*;
use crate::kind::{CbId, CbKind, MainLoopError};
use crate::queue::{
    earliest_of, has_id, is_earliest, lemma_earliest_unique, Pending, TimerQueue,
};

verus! {

/// What a loop asks of its driver for one iteration.
#[derive(Clone, Copy, Debug, PartialEq, Eq, Structural)]
pub enum Step {
    /// The loop is terminated: stop driving it.
    Stop,
    /// Run the work of this callback now, then hand it back with `finish`.
    Fire(Pending),
    /// Nothing is due before this time.
    Wait(u64),
    /// Nothing is pending: wait for an outside wake-up.
    Idle,
}

/// What one iteration of a loop in state (`terminated`, `s`) yields at `now`.
pub open spec fn step_at(terminated: bool, s: Seq<Pending>, now: u64) -> Step {
    if terminated {
        Step::Stop
    } else if s.len() == 0 {
        Step::Idle
    } else if s[earliest_of(s)].due <= now {
        Step::Fire(s[earliest_of(s)])
    } else {
        Step::Wait(s[earliest_of(s)].due)
    }
}

/// The pending callbacks after one iteration yields `r`.
pub open spec fn after_step(s: Seq<Pending>, r: Step) -> Seq<Pending> {
    if r is Fire {
        s.remove(earliest_of(s))
    } else {
        s
    }
}

/// A single-threaded callback scheduler: a termination flag and the queue of
/// pending callbacks it drives. Times are milliseconds on the driver's clock.
pub struct MainLoop {
    terminated: bool,
    backend: TimerQueue,
}

impl MainLoop {
    pub closed spec fn is_terminated(&self) -> bool {
        self.terminated
    }

    pub closed spec fn queue(&self) -> TimerQueue {
        self.backend
    }

    pub open spec fn pending(&self) -> Seq<Pending> {
        self.queue().items_spec()
    }

    pub open spec fn wf(&self) -> bool {
        self.queue().wf()
    }

    /// Creates a new loop with nothing pending.
    pub fn new() -> (r: MainLoop)
        ensures
            r.wf(),
            !r.is_terminated(),
            r.pending() == Seq::<Pending>::empty(),
            r.queue().next_id_spec() == 0,
    {
        MainLoop { terminated: false, backend: TimerQueue::new() }
    }

    /// Whether termination was requested.
    pub fn terminated(&self) -> (r: bool)
        ensures
            r == self.is_terminated(),
    {
        self.terminated
    }

    /// Requests termination. The flag is never cleared again.
    pub fn quit(&mut self)
        ensures
            final(self).is_terminated(),
            final(self).queue() == old(self).queue(),
    {
        self.terminated = true;
    }

    /// What registering `kind` at `now` on `pre`, giving `r`, leaves in `post`:
    /// a fresh identifier and one more pending callback, or
    /// `BackendRejected` and nothing changed when identifiers are exhausted or
    /// the due time does not fit.
    pub open spec fn registered(
        pre: MainLoop,
        post: MainLoop,
        kind: CbKind,
        now: u64,
        r: Result<CbId, MainLoopError>,
    ) -> bool {
        &&& post.wf()
        &&& post.is_terminated() == pre.is_terminated()
        &&& (r is Ok) == (pre.queue().next_id_spec() < u64::MAX
            && now as int + kind.step_spec() <= u64::MAX)
        &&& r is Err ==> r == Err::<CbId, MainLoopError>(MainLoopError::BackendRejected)
            && post.queue() == pre.queue()
        &&& r is Ok ==> {
            &&& r->Ok_0.id == pre.queue().next_id_spec()
            &&& post.queue().next_id_spec() == pre.queue().next_id_spec() + 1
            &&& post.pending() == pre.pending().push(Pending {
                id: pre.queue().next_id_spec(),
                origin: now,
                step: kind.step_spec() as u64,
                fired: 0,
                due: (now + kind.step_spec()) as u64,
                repeats: kind is Interval,
            })
        }
    }

    /// Registers `kind` at time `now`.
    pub fn call(&mut self, kind: CbKind, now: u64) -> (r: Result<CbId, MainLoopError>)
        requires
            old(self).wf(),
        ensures
            Self::registered(*old(self), *final(self), kind, now, r),
    {
        self.backend.push(kind, now)
    }

    /// Registers work to run once, as soon as the loop next runs.
    pub fn call_asap(&mut self, now: u64) -> (r: Result<CbId, MainLoopError>)
        requires
            old(self).wf(),
        ensures
            Self::registered(*old(self), *final(self), CbKind::Asap, now, r),
    {
        self.call(CbKind::Asap, now)
    }

    /// Registers work to run once, no earlier than `d` after `now`.
    pub fn call_after(&mut self, d: u64, now: u64) -> (r: Result<CbId, MainLoopError>)
        requires
            old(self).wf(),
        ensures
            Self::registered(*old(self), *final(self), CbKind::After { delay: d }, now, r),
    {
        self.call(CbKind::After { delay: d }, now)
    }

    /// Registers work to run every `d`, first at `d` after `now`.
    pub fn call_interval(&mut self, d: u64, now: u64) -> (r: Result<CbId, MainLoopError>)
        requires
            old(self).wf(),
        ensures
            Self::registered(*old(self), *final(self), CbKind::Interval { period: d }, now, r),
    {
        self.call(CbKind::Interval { period: d }, now)
    }

    /// One iteration of the blocking run at time `now`: stop if terminated,
    /// else take out the callback due first if it is due, else say how long
    /// to wait.
    pub fn run(&mut self, now: u64) -> (r: Step)
        requires
            old(self).wf(),
        ensures
            final(self).wf(),
            r == step_at(old(self).is_terminated(), old(self).pending(), now),
            final(self).pending() == after_step(old(self).pending(), r),
            final(self).is_terminated() == old(self).is_terminated(),
            final(self).queue().next_id_spec() == old(self).queue().next_id_spec(),
            old(self).pending().len() > 0 ==> is_earliest(old(self).pending(), earliest_of(old(self).pending())),
    {
        let ghost s = self.pending();
        proof {
            if s.len() > 0 {
                lemma_earliest_unique(s, 0);
            }
        }
        if self.terminated {
            return Step::Stop;
        }
        match self.backend.take_due(now) {
            Some(p) => {
                proof {
                    let i = choose|i: int| is_earliest(s, i) && s[i] == p && p.due <= now
                        && self.pending() == s.remove(i);
                    lemma_earliest_unique(s, i);
                }
                Step::Fire(p)
            }
            None => {
                match self.backend.next_due() {
                    None => Step::Idle,
                    Some(t) => {
                        proof {
                            let i = choose|i: int| is_earliest(s, i) && s[i].due == t;
                            lemma_earliest_unique(s, i);
                            assert(now < s[i].due);
                        }
                        Step::Wait(t)
                    }
                }
            }
        }
    }

    /// One iteration that never waits: the callback due first at `now`, if
    /// any is due and the loop is not terminated.
    pub fn run_one(&mut self, now: u64) -> (r: Option<Pending>)
        requires
            old(self).wf(),
        ensures
            final(self).wf(),
            r == (match step_at(old(self).is_terminated(), old(self).pending(), now) {
                Step::Fire(p) => Some(p),
                _ => None::<Pending>,
            }),
            final(self).pending() == after_step(
                old(self).pending(),
                step_at(old(self).is_terminated(), old(self).pending(), now),
            ),
            final(self).is_terminated() == old(self).is_terminated(),
            final(self).queue().next_id_spec() == old(self).queue().next_id_spec(),
            old(self).pending().len() > 0 ==> is_earliest(old(self).pending(), earliest_of(old(self).pending())),
    {
        match self.run(now) {
            Step::Fire(p) => Some(p),
            _ => None,
        }
    }

    /// Hands back a callback that `run` or `run_one` took out, once its work
    /// has run: an interval whose work returned `keep == true` is queued again
    /// one period after its scheduled time (dropped if that time does not fit
    /// in `u64`); anything else is dropped.
    pub fn finish(&mut self, p: Pending, keep: bool)
        requires
            old(self).wf(),
            p.wf(),
            p.id < old(self).queue().next_id_spec(),
            !has_id(old(self).pending(), p.id),
        ensures
            final(self).wf(),
            final(self).is_terminated() == old(self).is_terminated(),
            final(self).queue().next_id_spec() == old(self).queue().next_id_spec(),
            final(self).pending() == if p.repeats && keep && TimerQueue::can_rearm(p) {
                old(self).pending().push(TimerQueue::rearmed(p))
            } else {
                old(self).pending()
            },
    {
        self.backend.finish(p, keep)
    }

    /// Makes this loop the one running on the current thread, as `run` and
    /// `run_one` do on entry. `Ok(false)`: the loop is terminated and nothing
    /// is to be run. `Err(ReentrantRun)`: another loop is already running.
    pub fn with_current_loop(&self, reg: &mut Registry) -> (r: Result<bool, MainLoopError>)
        ensures
            r == enter_result(self.is_terminated(), old(reg).is_active()),
            final(reg).is_active() == (old(reg).is_active() || r == Ok::<bool, MainLoopError>(true)),
    {
        if self.terminated {
            Ok(false)
        } else if reg.active {
            Err(MainLoopError::ReentrantRun)
        } else {
            reg.active = true;
            Ok(true)
        }
    }
}

/// The outcome of entering a loop that is `terminated` while a loop is, or is
/// not, `active` on the thread.
pub open spec fn enter_result(terminated: bool, active: bool) -> Result<bool, MainLoopError> {
    if terminated {
        Ok(false)
    } else if active {
        Err(MainLoopError::ReentrantRun)
    } else {
        Ok(true)
    }
}

/// Whether a loop is running on the current thread.
pub struct Registry {
    active: bool,
}

impl Registry {
    pub closed spec fn is_active(&self) -> bool {
        self.active
    }

    pub fn new() -> (r: Registry)
        ensures
            !r.is_active(),
    {
        Registry { active: false }
    }

    pub fn active(&self) -> (r: bool)
        ensures
            r == self.is_active(),
    {
        self.active
    }

    /// Clears the entry, on every exit from a run, faulted or not.
    pub fn leave(&mut self)
        ensures
            !final(self).is_active(),
    {
        self.active = false;
    }
}

/// Registers `kind` on the loop running on this thread: `ml` is that loop
/// when `reg` says one is running.
pub fn call_internal(reg: &Registry, ml: &mut MainLoop, kind: CbKind, now: u64) -> (r: Result<CbId, MainLoopError>)
    requires
        old(ml).wf(),
    ensures
        !reg.is_active() ==> r == Err::<CbId, MainLoopError>(MainLoopError::NoMainLoop)
            && *final(ml) == *old(ml),
        reg.is_active() ==> MainLoop::registered(*old(ml), *final(ml), kind, now, r),
{
    if !reg.active {
        return Err(MainLoopError::NoMainLoop);
    }
    ml.call(kind, now)
}

/// Requests termination of the loop running on this thread; does nothing
/// when none is running.
pub fn terminate(reg: &Registry, ml: &mut MainLoop)
    ensures
        !reg.is_active() ==> *final(ml) == *old(ml),
        final(ml).queue() == old(ml).queue(),
        final(ml).is_terminated() == (old(ml).is_terminated() || reg.is_active()),
{
    if reg.active {
        ml.quit();
    }
}

} // verus!
