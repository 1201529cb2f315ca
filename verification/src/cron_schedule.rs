//! The facade: parse a schedule string once, then hand out intervals and
//! successor iterators that start at a given instant.

use vstd::prelude::*;

use crate::ast::Expr;
use crate::calendar::Instant;
use crate::cron_interval::{CronInterval, LimitValue};
use crate::cron_interval_iterator::CronIntervalIterator;
use crate::cron_parser::{sp_cron, CronParser, ParseError};
use crate::cron_specification::CronSpecification;

verus! {

/// A compiled schedule: the syntax tree of one schedule string.
pub struct CronSchedule {
    pub expr: Expr,
}

impl CronSchedule {
    /// Compiles a schedule string. `Ok` exactly on the strings of the
    /// grammar, holding the tree the grammar derives; `Err` otherwise.
    pub fn new(crond_string: &str) -> (r: Result<Self, ParseError>)
        ensures
            match sp_cron(crond_string@) {
                Some(m) => r matches Ok(s) && s.expr.model() == m,
                None => r is Err,
            },
    {
        match CronParser::parse(crond_string) {
            Ok(expr) => Ok(Self { expr }),
            Err(e) => Err(e),
        }
    }

    /// The interval of satisfying instants from `start` on, unbounded
    /// above.
    pub fn cron_interval(&self, start: Instant) -> (r: CronInterval)
        requires
            start.valid(),
        ensures
            r.wf(),
            r.start == LimitValue::Limit(start),
            r.end is Limitless,
            r.cron_specification.expr.model() == self.expr.model(),
    {
        let specification = CronSpecification::new(self.expr.clone());
        let start_value = LimitValue::Limit(start);
        let end_value = LimitValue::Limitless;
        CronInterval::new(start_value, end_value, specification)
    }

    /// An iterator over the satisfying instants from `start` on.
    pub fn upcoming(&self, start: Instant) -> (r: CronIntervalIterator)
        requires
            start.valid(),
        ensures
            r.wf(),
            r.curr == start,
            r.next == start,
            r.cron_interval.end is Limitless,
            r.cron_interval.cron_specification.expr.model() == self.expr.model(),
    {
        self.cron_interval(start).iter()
    }
}

} // verus!
