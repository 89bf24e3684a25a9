use vstd::prelude::*;
use crate::kind::{CbId, CbKind, MainLoopError};
use crate::mainloop::{after_step, enter_result, step_at, MainLoop, Step};
use crate::queue::{earliest_of, lemma_earliest_unique, Pending, TimerQueue};

verus! {

/// A callback registered with `call_asap` on a loop that is not terminated
/// makes the next iteration at or after its registration run a callback
/// rather than wait or stop: it runs before the loop can end, unless
/// something else ends it first.
pub proof fn lemma_asap_runs(
    pre: MainLoop,
    post: MainLoop,
    now: u64,
    r: Result<CbId, MainLoopError>,
    later: u64,
)
    requires
        MainLoop::registered(pre, post, CbKind::Asap, now, r),
        r is Ok,
        !pre.is_terminated(),
        now <= later,
    ensures
        step_at(post.is_terminated(), post.pending(), later) is Fire,
{
    let s = post.pending();
    let k = s.len() - 1;
    assert(s[k].due == now);
    lemma_due_runs_first(s, later, k);
}

/// When some pending callback is due, an iteration of a loop that is not
/// terminated runs one that is due no later than it.
pub proof fn lemma_due_runs_first(s: Seq<Pending>, now: u64, k: int)
    requires
        0 <= k < s.len(),
        s[k].due <= now,
    ensures
        step_at(false, s, now) is Fire,
        step_at(false, s, now)->Fire_0.due <= s[k].due,
{
    lemma_earliest_unique(s, 0);
    assert(s[earliest_of(s)].due <= s[k].due);
}

/// A callback never runs before its delay has passed: whatever an iteration
/// at `now` runs was registered at `origin` with delay or period `step`, and
/// `now >= origin + step`.
pub proof fn lemma_delay_lower_bound(ml: MainLoop, now: u64)
    requires
        ml.wf(),
        step_at(ml.is_terminated(), ml.pending(), now) is Fire,
    ensures
        ({
            let p = step_at(ml.is_terminated(), ml.pending(), now)->Fire_0;
            now as int >= p.origin as int + p.step as int
        }),
{
    let s = ml.pending();
    lemma_earliest_unique(s, 0);
    let p = s[earliest_of(s)];
    assert(p.wf());
    assert(p.origin as int + p.step as int <= p.due as int) by (nonlinear_arith)
        requires
            p.due as int == p.origin as int + (p.fired as int + 1) * p.step as int,
            p.fired >= 0;
}

/// An interval that asks to go on is re-armed from its scheduled time, not
/// from when its work ran: its next firing is due `fired + 2` periods after
/// registration, however late the last one ran.
pub proof fn lemma_interval_no_drift(p: Pending)
    requires
        p.wf(),
        p.repeats,
        TimerQueue::can_rearm(p),
    ensures
        TimerQueue::rearmed(p).wf(),
        TimerQueue::rearmed(p).due as int == p.origin as int + (p.fired as int + 2) * p.step as int,
{
    let q = TimerQueue::rearmed(p);
    assert(q.due as int == p.origin as int + (p.fired as int + 2) * p.step as int) by (nonlinear_arith)
        requires
            q.due as int == p.due as int + p.step as int,
            p.due as int == p.origin as int + (p.fired as int + 1) * p.step as int;
}

/// Starting a loop while another runs on the thread is refused, and once the
/// running one has cleared its entry a fresh loop starts normally.
pub proof fn lemma_reentrant_run_rejected()
    ensures
        enter_result(false, true) == Err::<bool, MainLoopError>(MainLoopError::ReentrantRun),
        enter_result(false, false) == Ok::<bool, MainLoopError>(true),
{
}

/// A terminated loop stops at once, whatever is pending and whenever it is
/// run, and runs nothing: quitting once or many times, before or during a
/// run, comes to the same.
pub proof fn lemma_quit_stops(s: Seq<Pending>, now: u64)
    ensures
        step_at(true, s, now) == Step::Stop,
        after_step(s, step_at(true, s, now)) == s,
        enter_result(true, false) == Ok::<bool, MainLoopError>(false),
        enter_result(true, true) == Ok::<bool, MainLoopError>(false),
{
}

} // verus!
