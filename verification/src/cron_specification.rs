//! The specification seam: a predicate abstraction over instants, so the
//! successor iterator can treat "is this instant due" as a plain boolean
//! test, independent of the evaluator's internals.

use vstd::prelude::*;

use crate::ast::Expr;
use crate::calendar::Instant;
use crate::cron_evaluator::{eval_cron, CronEvaluator};

verus! {

/// A predicate over values of `T`. `spec_is_satisfied_by` is the relation
/// the implementation decides; `arg_ok` delimits the arguments the runtime
/// test accepts.
pub trait Specification<T> {
    /// The relation this predicate decides.
    spec fn spec_is_satisfied_by(&self, arg: &T) -> bool;

    /// The arguments the runtime test accepts.
    spec fn arg_ok(&self, arg: &T) -> bool;

    /// Decides the predicate.
    fn is_satisfied_by(&self, arg: &T) -> (r: bool)
        requires
            self.arg_ok(arg),
        ensures
            r == self.spec_is_satisfied_by(arg),
    ;
}

/// The schedule predicate: an instant satisfies it exactly when the
/// evaluator accepts the instant against the held tree.
pub struct CronSpecification {
    pub expr: Expr,
}

impl CronSpecification {
    pub fn new(expr: Expr) -> (s: Self)
        ensures
            s.expr == expr,
    {
        Self { expr }
    }
}

impl Specification<Instant> for CronSpecification {
    open spec fn spec_is_satisfied_by(&self, arg: &Instant) -> bool {
        eval_cron(self.expr.model(), *arg)
    }

    open spec fn arg_ok(&self, arg: &Instant) -> bool {
        arg.valid()
    }

    fn is_satisfied_by(&self, arg: &Instant) -> (r: bool) {
        CronEvaluator::new(arg).eval(&self.expr)
    }
}

impl Clone for CronSpecification {
    /// The copy holds a tree denoting the same schedule.
    fn clone(&self) -> (res: Self)
        ensures
            res.expr.model() == self.expr.model(),
    {
        CronSpecification { expr: self.expr.clone() }
    }
}

} // verus!
