//! The scheduled interval: a start bound, an optional end bound, and the
//! compiled schedule predicate; `iter` starts the successor scan at the
//! lower bound.

use vstd::prelude::*;

use crate::calendar::Instant;
use crate::cron_interval_iterator::CronIntervalIterator;
use crate::cron_specification::CronSpecification;

verus! {

/// One bound of an interval: a concrete limit, or no bound at all.
#[derive(Debug, Clone, Copy, PartialEq, Eq)]
pub enum LimitValue<T> {
    Limitless,
    Limit(T),
}

/// The instants from a start bound on (up to an optional end bound) that a
/// schedule accepts.
pub struct CronInterval {
    pub start: LimitValue<Instant>,
    pub end: LimitValue<Instant>,
    pub cron_specification: CronSpecification,
}

impl CronInterval {
    /// Bounds, where present, are well-formed instants.
    pub open spec fn wf(self) -> bool {
        &&& (self.start matches LimitValue::Limit(s) ==> s.valid())
        &&& (self.end matches LimitValue::Limit(e) ==> e.valid())
    }

    pub fn new(
        start_value: LimitValue<Instant>,
        end_value: LimitValue<Instant>,
        cron_specification: CronSpecification,
    ) -> (r: Self)
        requires
            (start_value matches LimitValue::Limit(s) ==> s.valid()),
            (end_value matches LimitValue::Limit(e) ==> e.valid()),
        ensures
            r.start == start_value,
            r.end == end_value,
            r.cron_specification == cron_specification,
            r.wf(),
    {
        Self { start: start_value, end: end_value, cron_specification }
    }

    /// An iterator over the satisfying instants, scanning from the start
    /// bound. The interval must be bounded below; an unbounded start has no
    /// first candidate to scan from.
    pub fn iter(&self) -> (it: CronIntervalIterator)
        requires
            self.wf(),
            self.start is Limit,
        ensures
            it.wf(),
            (self.start matches LimitValue::Limit(v) ==> it.curr == v && it.next == v),
            it.cron_interval.start == self.start,
            it.cron_interval.end == self.end,
            it.cron_interval.cron_specification.expr.model()
                == self.cron_specification.expr.model(),
    {
        let dt = match &self.start {
            LimitValue::Limit(v) => *v,
            LimitValue::Limitless => Instant { year: 1, month: 1, day: 1, hour: 0, minute: 0 },
        };
        CronIntervalIterator::new(dt, dt, self.clone())
    }
}

impl Clone for CronInterval {
    /// The copy has the same bounds and a predicate denoting the same
    /// schedule.
    fn clone(&self) -> (res: Self)
        ensures
            res.start == self.start,
            res.end == self.end,
            res.cron_specification.expr.model() == self.cron_specification.expr.model(),
    {
        CronInterval {
            start: self.start,
            end: self.end,
            cron_specification: self.cron_specification.clone(),
        }
    }
}

} // verus!
