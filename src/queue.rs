use vstd::prelude::*;
use crate::kind::{CbId, CbKind, MainLoopError};

verus! {

/// A callback that waits in the queue, as plain values.
#[derive(Clone, Copy, Debug, PartialEq, Eq, Structural)]
pub struct Pending {
    pub id: u64,
    /// Time of registration, in milliseconds.
    pub origin: u64,
    /// Delay or period, in milliseconds.
    pub step: u64,
    /// How many times it has fired so far.
    pub fired: u64,
    /// Scheduled time of the next firing.
    pub due: u64,
    /// Whether it is an interval.
    pub repeats: bool,
}

impl Pending {
    /// The next firing is scheduled from the registration time alone, never
    /// from when an earlier firing actually ran.
    pub open spec fn wf(self) -> bool {
        &&& self.due as int == self.origin as int + (self.fired as int + 1) * self.step as int
        &&& (!self.repeats ==> self.fired == 0)
    }
}

/// First index whose due time is the smallest of all.
pub open spec fn is_earliest(s: Seq<Pending>, i: int) -> bool {
    &&& 0 <= i < s.len()
    &&& forall|j: int| 0 <= j < s.len() ==> s[i].due <= #[trigger] s[j].due
    &&& forall|j: int| 0 <= j < i ==> s[i].due < #[trigger] s[j].due
}

/// The earliest index of a non-empty sequence.
pub open spec fn earliest_of(s: Seq<Pending>) -> int {
    choose|i: int| is_earliest(s, i)
}

/// Every non-empty sequence has exactly one earliest index.
pub proof fn lemma_earliest_unique(s: Seq<Pending>, i: int)
    requires
        s.len() > 0,
    ensures
        is_earliest(s, earliest_of(s)),
        is_earliest(s, i) ==> i == earliest_of(s),
    decreases s.len(),
{
    lemma_earliest_exists(s);
    let k = earliest_of(s);
    if is_earliest(s, i) && i != k {
        if i < k {
            assert(s[k].due < s[i].due);
            assert(s[i].due <= s[k].due);
        } else {
            assert(s[i].due < s[k].due);
            assert(s[k].due <= s[i].due);
        }
    }
}

proof fn lemma_earliest_exists(s: Seq<Pending>)
    requires
        s.len() > 0,
    ensures
        exists|i: int| is_earliest(s, i),
    decreases s.len(),
{
    if s.len() == 1 {
        assert(is_earliest(s, 0));
    } else {
        let t = s.drop_last();
        lemma_earliest_exists(t);
        let k = choose|i: int| is_earliest(t, i);
        let n = s.len() - 1;
        assert(forall|j: int| 0 <= j < t.len() ==> t[j] == s[j]);
        if s[n].due < s[k].due {
            assert forall|j: int| 0 <= j < n implies s[n].due < #[trigger] s[j].due by {
                assert(t[k].due <= t[j].due);
            }
            assert(is_earliest(s, n));
        } else {
            assert forall|j: int| 0 <= j < s.len() implies s[k].due <= #[trigger] s[j].due by {
                if j < n {
                    assert(t[k].due <= t[j].due);
                }
            }
            assert forall|j: int| 0 <= j < k implies s[k].due < #[trigger] s[j].due by {
                assert(t[k].due < t[j].due);
            }
            assert(is_earliest(s, k));
        }
    }
}

pub open spec fn ids_distinct(s: Seq<Pending>) -> bool {
    forall|a: int, b: int| 0 <= a < s.len() && 0 <= b < s.len() && a != b ==> s[a].id != s[b].id
}

pub open spec fn has_id(s: Seq<Pending>, id: u64) -> bool {
    exists|j: int| 0 <= j < s.len() && s[j].id == id
}

/// The software timer queue that a loop drives: pending callbacks in
/// registration order, and the identifier the next registration gets.
pub struct TimerQueue {
    items: Vec<Pending>,
    next_id: u64,
}

impl TimerQueue {
    pub closed spec fn items_spec(&self) -> Seq<Pending> {
        self.items@
    }

    pub closed spec fn next_id_spec(&self) -> u64 {
        self.next_id
    }

    pub open spec fn wf(&self) -> bool {
        &&& ids_distinct(self.items_spec())
        &&& forall|j: int| 0 <= j < self.items_spec().len() ==>
            (#[trigger] self.items_spec()[j]).wf() && self.items_spec()[j].id < self.next_id_spec()
    }

    pub fn new() -> (r: TimerQueue)
        ensures
            r.wf(),
            r.items_spec() == Seq::<Pending>::empty(),
            r.next_id_spec() == 0,
    {
        TimerQueue { items: Vec::new(), next_id: 0 }
    }

    /// Registers a callback of `kind` at time `now`. Refused when the
    /// identifiers are exhausted or the first due time does not fit in `u64`.
    pub fn push(&mut self, kind: CbKind, now: u64) -> (r: Result<CbId, MainLoopError>)
        requires
            old(self).wf(),
        ensures
            final(self).wf(),
            (r is Ok) == (old(self).next_id_spec() < u64::MAX && now as int + kind.step_spec() <= u64::MAX),
            r is Err ==> r == Err::<CbId, MainLoopError>(MainLoopError::BackendRejected)
                && *final(self) == *old(self),
            r is Ok ==> {
                &&& r->Ok_0.id == old(self).next_id_spec()
                &&& final(self).next_id_spec() == old(self).next_id_spec() + 1
                &&& final(self).items_spec() == old(self).items_spec().push(Pending {
                    id: old(self).next_id_spec(),
                    origin: now,
                    step: kind.step_spec() as u64,
                    fired: 0,
                    due: (now + kind.step_spec()) as u64,
                    repeats: kind is Interval,
                })
            },
    {
        let step = kind.step();
        if self.next_id == u64::MAX || step > u64::MAX - now {
            return Err(MainLoopError::BackendRejected);
        }
        let id = self.next_id;
        let p = Pending { id, origin: now, step, fired: 0, due: now + step, repeats: kind.repeats() };
        assert(p.wf()) by (nonlinear_arith)
            requires
                p.due as int == p.origin as int + p.step as int,
                p.fired == 0;
        self.items.push(p);
        self.next_id = id + 1;
        assert(ids_distinct(self.items@)) by {
            assert forall|a: int, b: int|
                0 <= a < self.items@.len() && 0 <= b < self.items@.len() && a != b
                implies self.items@[a].id != self.items@[b].id by {
                if a < old(self).items@.len() {
                    assert(old(self).items@[a] == self.items@[a]);
                }
                if b < old(self).items@.len() {
                    assert(old(self).items@[b] == self.items@[b]);
                }
            }
        }
        assert forall|j: int| 0 <= j < self.items@.len() implies
            (#[trigger] self.items@[j]).wf() && self.items@[j].id < self.next_id by {
            if j < old(self).items@.len() {
                assert(old(self).items@[j] == self.items@[j]);
            }
        }
        Ok(CbId { id })
    }

    /// Index of the callback that is due first, ties going to the one that
    /// has waited in the queue longest.
    pub fn earliest(&self) -> (r: Option<usize>)
        ensures
            r is None <==> self.items_spec().len() == 0,
            r is Some ==> is_earliest(self.items_spec(), r->Some_0 as int),
    {
        if self.items.len() == 0 {
            return None;
        }
        let mut best: usize = 0;
        let mut i: usize = 1;
        while i < self.items.len()
            invariant
                0 <= best < i <= self.items@.len(),
                forall|j: int| 0 <= j < i ==> self.items@[best as int].due <= #[trigger] self.items@[j].due,
                forall|j: int| 0 <= j < best ==> self.items@[best as int].due < #[trigger] self.items@[j].due,
            decreases self.items@.len() - i,
        {
            if self.items[i].due < self.items[best].due {
                best = i;
            }
            i = i + 1;
        }
        Some(best)
    }

    /// Due time of the callback that comes next, if any is pending.
    pub fn next_due(&self) -> (r: Option<u64>)
        ensures
            r is None <==> self.items_spec().len() == 0,
            r is Some ==> exists|i: int| is_earliest(self.items_spec(), i)
                && self.items_spec()[i].due == r->Some_0,
    {
        match self.earliest() {
            None => None,
            Some(i) => Some(self.items[i].due),
        }
    }

    /// Takes out the callback that is due first, if it is due at `now`.
    pub fn take_due(&mut self, now: u64) -> (r: Option<Pending>)
        requires
            old(self).wf(),
        ensures
            final(self).wf(),
            final(self).next_id_spec() == old(self).next_id_spec(),
            r is None ==> *final(self) == *old(self)
                && forall|j: int| 0 <= j < old(self).items_spec().len()
                    ==> now < #[trigger] old(self).items_spec()[j].due,
            r is Some ==> exists|i: int| {
                &&& is_earliest(old(self).items_spec(), i)
                &&& old(self).items_spec()[i] == r->Some_0
                &&& r->Some_0.due <= now
                &&& final(self).items_spec() == old(self).items_spec().remove(i)
            },
    {
        match self.earliest() {
            None => None,
            Some(i) => {
                if self.items[i].due <= now {
                    let p = self.items.remove(i);
                    assert(ids_distinct(self.items@)) by {
                        assert forall|a: int, b: int|
                            0 <= a < self.items@.len() && 0 <= b < self.items@.len() && a != b
                            implies self.items@[a].id != self.items@[b].id by {
                            let oa = if a < i { a } else { a + 1 };
                            let ob = if b < i { b } else { b + 1 };
                            assert(old(self).items@[oa] == self.items@[a]);
                            assert(old(self).items@[ob] == self.items@[b]);
                        }
                    }
                    assert forall|j: int| 0 <= j < self.items@.len() implies
                        (#[trigger] self.items@[j]).wf() && self.items@[j].id < self.next_id by {
                        let oj = if j < i { j } else { j + 1 };
                        assert(old(self).items@[oj] == self.items@[j]);
                    }
                    Some(p)
                } else {
                    assert forall|j: int| 0 <= j < self.items@.len() implies now < #[trigger] self.items@[j].due by {
                        assert(self.items@[i as int].due <= self.items@[j].due);
                    }
                    None
                }
            }
        }
    }

    /// Whether re-arming `p` one period later stays within `u64`.
    pub open spec fn can_rearm(p: Pending) -> bool {
        p.fired < u64::MAX && p.due as int + p.step as int <= u64::MAX
    }

    /// The same interval, scheduled one period after its last scheduled firing.
    pub open spec fn rearmed(p: Pending) -> Pending {
        Pending { fired: (p.fired + 1) as u64, due: (p.due + p.step) as u64, ..p }
    }

    /// Ends a firing of `p`: an interval whose work asked to go on (`keep`)
    /// is queued again one period after its scheduled time; anything else is
    /// dropped.
    pub fn finish(&mut self, p: Pending, keep: bool)
        requires
            old(self).wf(),
            p.wf(),
            p.id < old(self).next_id_spec(),
            !has_id(old(self).items_spec(), p.id),
        ensures
            final(self).wf(),
            final(self).next_id_spec() == old(self).next_id_spec(),
            final(self).items_spec() == if p.repeats && keep && Self::can_rearm(p) {
                old(self).items_spec().push(Self::rearmed(p))
            } else {
                old(self).items_spec()
            },
    {
        if p.repeats && keep && p.fired < u64::MAX && p.step <= u64::MAX - p.due {
            let q = Pending { fired: p.fired + 1, due: p.due + p.step, ..p };
            assert(q.wf()) by (nonlinear_arith)
                requires
                    q.due as int == p.due as int + p.step as int,
                    q.fired as int == p.fired as int + 1,
                    q.origin == p.origin,
                    q.step == p.step,
                    q.repeats,
                    p.due as int == p.origin as int + (p.fired as int + 1) * p.step as int;
            self.items.push(q);
            assert(ids_distinct(self.items@)) by {
                assert forall|a: int, b: int|
                    0 <= a < self.items@.len() && 0 <= b < self.items@.len() && a != b
                    implies self.items@[a].id != self.items@[b].id by {
                    if a < old(self).items@.len() && b < old(self).items@.len() {
                        assert(old(self).items@[a] == self.items@[a]);
                        assert(old(self).items@[b] == self.items@[b]);
                    } else if a < old(self).items@.len() {
                        assert(old(self).items@[a] == self.items@[a]);
                    } else {
                        assert(old(self).items@[b] == self.items@[b]);
                    }
                }
            }
            assert(self.items@ == old(self).items@.push(Self::rearmed(p)));
        }
    }
}

} // verus!
