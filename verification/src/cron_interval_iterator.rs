//! The successor iterator: a lazy, strictly increasing sequence of the
//! instants satisfying a schedule, found by a brute-force forward scan at
//! one-minute resolution. Minute granularity is the finest the expression
//! language has, so the scan can skip no satisfying instant.

use vstd::prelude::*;

use crate::calendar::{advance, Instant, YEAR_MAX};
use crate::cron_evaluator::eval_cron;
use crate::cron_interval::{CronInterval, LimitValue};
use crate::cron_specification::Specification;

verus! {

/// The scanning cursor over a [`CronInterval`]: `curr` is the most recently
/// yielded (or about-to-be-checked) candidate, `next` the candidate the
/// following call starts from.
pub struct CronIntervalIterator {
    pub curr: Instant,
    pub next: Instant,
    pub cron_interval: CronInterval,
}

impl CronIntervalIterator {
    /// Both cursor instants are well-formed, as is the interval.
    pub open spec fn wf(self) -> bool {
        &&& self.curr.valid()
        &&& self.next.valid()
        &&& self.cron_interval.wf()
    }

    /// Whether the schedule accepts `t`.
    pub open spec fn sat(self, t: Instant) -> bool {
        eval_cron(self.cron_interval.cron_specification.expr.model(), t)
    }

    /// Whether the end bound, if there is one, lies strictly before `cand`:
    /// the scan has then left the interval and the sequence is over.
    pub open spec fn past_end(self, cand: Instant) -> bool {
        (self.cron_interval.end matches LimitValue::Limit(e) && e.spec_before(cand))
    }

    pub fn new(curr: Instant, next: Instant, cron_interval: CronInterval) -> (r: Self)
        requires
            curr.valid(),
            next.valid(),
            cron_interval.wf(),
        ensures
            r.curr == curr,
            r.next == next,
            r.cron_interval == cron_interval,
            r.wf(),
    {
        Self { curr, next, cron_interval }
    }

    /// The interval this iterator scans.
    pub fn cron_interval(&self) -> (r: &CronInterval)
        ensures
            r == &self.cron_interval,
    {
        &self.cron_interval
    }

    /// The end bound as an optional instant.
    fn end_value(&self) -> (r: Option<Instant>)
        ensures
            (r matches Some(e) ==> self.cron_interval.end == LimitValue::Limit(e)),
            r is None ==> self.cron_interval.end is Limitless,
    {
        match &self.cron_interval.end {
            LimitValue::Limit(v) => Some(*v),
            LimitValue::Limitless => None,
        }
    }

    /// The next satisfying instant.
    ///
    /// Starting from the candidate `old(self).next`, the sequence ends
    /// (`None`, cursor unchanged) when the end bound lies strictly before
    /// the candidate. Otherwise the scan walks forward minute by minute and
    /// yields the first instant the schedule accepts: `Some(t)` with `t`
    /// reached from the candidate by minute steps none of whose
    /// predecessors is accepted. A schedule no instant satisfies would scan
    /// forever; the scan gives up (`None`) at the last representable year,
    /// having accepted nothing on the way there.
    pub fn next(&mut self) -> (r: Option<Instant>)
        requires
            old(self).wf(),
        ensures
            final(self).wf(),
            final(self).cron_interval == old(self).cron_interval,
            match r {
                Option::None => {
                    ||| (old(self).past_end(old(self).next) && *final(self) == *old(self))
                    ||| (exists|n: nat|
                        {
                            &&& #[trigger] advance(old(self).next, n) == final(self).curr
                            &&& final(self).curr.year >= YEAR_MAX
                            &&& forall|m: nat|
                                m <= n ==> !old(self).sat(
                                    #[trigger] advance(old(self).next, m),
                                )
                        } && !old(self).past_end(old(self).next)
                        && final(self).next == final(self).curr)
                },
                Option::Some(t) => {
                    &&& !old(self).past_end(old(self).next)
                    &&& old(self).sat(t)
                    &&& t == final(self).curr
                    &&& (old(self).next == t || old(self).next.spec_before(t))
                    &&& (t == final(self).next || t.spec_before(final(self).next))
                    &&& exists|n: nat|
                        {
                            &&& #[trigger] advance(old(self).next, n) == t
                            &&& forall|m: nat|
                                m < n ==> !old(self).sat(
                                    #[trigger] advance(old(self).next, m),
                                )
                        }
                    &&& final(self).next == (if t.year < YEAR_MAX {
                        t.spec_next_minute()
                    } else {
                        t
                    })
                },
            },
    {
        let cand = self.next;
        match self.end_value() {
            Some(end) => {
                if end.lt(&cand) {
                    return None;
                }
            },
            None => {},
        }
        let ghost model = self.cron_interval.cron_specification.expr.model();
        let mut cur = cand;
        let mut found = self.cron_interval.cron_specification.is_satisfied_by(&cur);
        let ghost mut steps: nat = 0nat;
        while !found && cur.year < YEAR_MAX
            invariant
                cur.valid(),
                cand == cur || cand.spec_before(cur),
                advance(cand, steps) == cur,
                found == eval_cron(model, cur),
                forall|m: nat| m < steps ==> !eval_cron(model, #[trigger] advance(cand, m)),
                *self == *old(self),
                self.wf(),
                model == self.cron_interval.cron_specification.expr.model(),
            decreases
                    YEAR_MAX - cur.year,
                    12 - cur.month,
                    31 - cur.day,
                    23 - cur.hour,
                    59 - cur.minute,
        {
            let ghost prev = cur;
            cur = cur.next_minute();
            found = self.cron_interval.cron_specification.is_satisfied_by(&cur);
            proof {
                steps = steps + 1;
                assert(advance(cand, steps) == cur);
                crate::calendar::lemma_next_minute_increases(prev);
                if cand != prev {
                    crate::calendar::lemma_before_trans(cand, prev, cur);
                }
            }
        }
        if found {
            self.curr = cur;
            if cur.year < YEAR_MAX {
                self.next = cur.next_minute();
                proof {
                    crate::calendar::lemma_next_minute_increases(cur);
                }
            } else {
                self.next = cur;
            }
            proof {
                assert(advance(cand, steps) == cur);
            }
            Some(cur)
        } else {
            self.curr = cur;
            self.next = cur;
            proof {
                assert(advance(cand, steps) == cur);
            }
            None
        }
    }
}

/// An iterator whose end bound lies strictly before its starting candidate
/// yields no values: the candidate, and every instant from it on, is past
/// the end, so each call of `next` terminates the sequence at once.
pub proof fn lemma_empty_when_end_before_start(it: CronIntervalIterator, e: Instant)
    requires
        it.cron_interval.end == LimitValue::Limit(e),
        e.spec_before(it.next),
    ensures
        it.past_end(it.next),
        forall|u: Instant| it.next.spec_before(u) ==> it.past_end(u),
{
    assert forall|u: Instant| it.next.spec_before(u) implies it.past_end(u) by {
        crate::calendar::lemma_before_trans(e, it.next, u);
    }
}

} // verus!
