//! The evaluator: matches one calendar instant against a schedule tree by
//! structural recursion, one field at a time, combining the five field
//! verdicts with logical AND. It is total over all trees and never fails.

use vstd::prelude::*;

use crate::ast::{Expr, ExprModel};
use crate::calendar::{days_in_month, days_in_month_of, is_leap_year, weekday_of, Instant};

verus! {

broadcast use vstd::std_specs::vec::axiom_vec_index_decreases;

/// The evaluation context of a single field: the field's current calendar
/// value and its upper bound in the current context (for day of month, the
/// length of the instant's month).
#[derive(Debug, Clone)]
pub struct Environment {
    pub now: u8,
    pub max: u8,
}

impl Environment {
    pub fn new(now: u8, max: u8) -> (r: Self)
        ensures
            r.now == now,
            r.max == max,
    {
        Self { now, max }
    }
}

/// Whether `now` lies in the stepped sequence `from, from + step, …` of
/// values not exceeding `to`. A zero step repeats `from` forever, so only
/// `from` itself is in the sequence.
pub open spec fn in_stepped(now: int, from: int, to: int, step: int) -> bool {
    if step > 0 {
        from <= now <= to && (now - from) % step == 0
    } else {
        now == from && from <= to
    }
}

/// Whether a field sub-expression accepts the field value `now` under the
/// field bound `max`.
pub open spec fn expr_matches(m: ExprModel, now: int, max: int) -> bool
    decreases m,
{
    match m {
        ExprModel::AnyValueExpr => true,
        ExprModel::LastValueExpr => now == max,
        ExprModel::ValueExpr(n) => now == n,
        ExprModel::ListExpr { exprs } => exists|k: int|
            0 <= k < exprs.len() && expr_matches(#[trigger] exprs[k], now, max),
        ExprModel::RangeExpr { from, to, per_option } => match (*from, *to) {
            (ExprModel::ValueExpr(s), ExprModel::ValueExpr(e)) => match *per_option {
                ExprModel::NoOp => s <= now <= e,
                ExprModel::ValueExpr(p) => in_stepped(now, s as int, e as int, p as int),
                _ => false,
            },
            _ => false,
        },
        ExprModel::PerExpr { digit, option } => match (*digit, *option) {
            (ExprModel::AnyValueExpr, ExprModel::ValueExpr(p)) => in_stepped(
                now,
                0,
                max,
                p as int,
            ),
            _ => false,
        },
        _ => false,
    }
}

/// Whether a whole schedule tree accepts the instant `t`: a `CronExpr` whose
/// five fields all match their environment; any other root never matches.
pub open spec fn eval_cron(m: ExprModel, t: Instant) -> bool {
    match m {
        ExprModel::CronExpr { mins, hours, days, months, day_of_weeks } => {
            &&& expr_matches(*mins, t.minute as int, 59)
            &&& expr_matches(*hours, t.hour as int, 23)
            &&& expr_matches(*days, t.day as int, days_in_month(t.year as int, t.month as int))
            &&& expr_matches(*months, t.month as int, 12)
            &&& expr_matches(
                *day_of_weeks,
                weekday_of(t.year as int, t.month as int, t.day as int),
                7,
            )
        },
        _ => false,
    }
}

/// The day count of the month that follows the first day of `(year, month)`,
/// that is, the length of that month; `None` outside the calendar domain.
pub fn get_days_from_month(year: u32, month: u8) -> (r: Option<u8>)
    ensures
        1 <= month <= 12 ==> r == Some((days_in_month(year as int, month as int) as u8)),
        !(1 <= month <= 12) ==> r is None,
{
    if 1 <= month && month <= 12 {
        Some(days_in_month_of(year, month))
    } else {
        None
    }
}

/// Evaluates schedule trees against one instant.
pub struct CronEvaluator<'a> {
    pub instant: &'a Instant,
}

impl<'a> CronEvaluator<'a> {
    pub fn new(instant: &'a Instant) -> (s: Self)
        ensures
            s.instant == instant,
    {
        Self { instant }
    }

    /// Whether the instant satisfies the schedule tree `ast`.
    pub fn eval(&self, ast: &Expr) -> (r: bool)
        requires
            self.instant.valid(),
        ensures
            r == eval_cron(ast.model(), *self.instant),
    {
        match ast {
            Expr::CronExpr { mins, hours, days, months, day_of_weeks } => {
                match get_days_from_month(self.instant.year, self.instant.month) {
                    Some(last_day) => {
                        let fmins = self.visit0(&Environment::new(self.instant.minute, 59), mins);
                        let fhours = self.visit0(&Environment::new(self.instant.hour, 23), hours);
                        let fdays = self.visit0(
                            &Environment::new(self.instant.day, last_day),
                            days,
                        );
                        let fmonths = self.visit0(
                            &Environment::new(self.instant.month, 12),
                            months,
                        );
                        let fday_of_weeks = self.visit0(
                            &Environment::new(self.instant.weekday(), 7),
                            day_of_weeks,
                        );
                        fmins && fhours && fdays && fmonths && fday_of_weeks
                    },
                    None => false,
                }
            },
            _ => false,
        }
    }

    #[verifier::loop_isolation(false)]
    fn visit1(&self, env: &Environment, ast: &Expr) -> (r: bool)
        ensures
            r == expr_matches(ast.model(), env.now as int, env.max as int),
        decreases ast, 0int,
    {
        match ast {
            Expr::AnyValueExpr => true,
            Expr::LastValueExpr => env.now == env.max,
            Expr::ValueExpr(n) => env.now == *n,
            Expr::ListExpr { exprs } => {
                let mut i: usize = 0;
                while i < exprs.len()
                    invariant
                        i <= exprs.len(),
                        forall|k: int|
                            0 <= k < i as int ==> !expr_matches(
                                #[trigger] exprs@[k].model(),
                                env.now as int,
                                env.max as int,
                            ),
                    decreases exprs.len() - i,
                {
                    proof {
                        assert(decreases_to!(*ast => (*ast)->ListExpr_exprs));
                        vstd::std_specs::vec::axiom_vec_index_decreases::<Expr>(*exprs, i as int);
                    }
                    if self.visit0(env, &exprs[i]) {
                        proof {
                            let m = ast.model();
                            assert(m->ListExpr_exprs[i as int] == exprs@[i as int].model());
                        }
                        return true;
                    }
                    i = i + 1;
                }
                proof {
                    let m = ast.model();
                    assert forall|k: int| 0 <= k < m->ListExpr_exprs.len() implies !expr_matches(
                        #[trigger] m->ListExpr_exprs[k],
                        env.now as int,
                        env.max as int,
                    ) by {
                        assert(m->ListExpr_exprs[k] == exprs@[k].model());
                    }
                }
                false
            },
            Expr::RangeExpr { from, to, per_option } => {
                let r2 = match (&**from, &**to) {
                    (Expr::ValueExpr(s), Expr::ValueExpr(e)) => match &**per_option {
                        Expr::NoOp => *s <= env.now && env.now <= *e,
                        Expr::ValueExpr(p) => in_stepped_exec(env.now, *s, *e, *p),
                        _ => false,
                    },
                    _ => false,
                };
                proof {
                    assert(ast.model() matches ExprModel::RangeExpr { from: mf, to: mt, per_option: mp }
                        && *mf == from.model() && *mt == to.model() && *mp == per_option.model());
                }
                r2
            },
            Expr::PerExpr { digit, option } => {
                let r2 = match (&**digit, &**option) {
                    (Expr::AnyValueExpr, Expr::ValueExpr(p)) => in_stepped_exec(
                        env.now,
                        0,
                        env.max,
                        *p,
                    ),
                    _ => false,
                };
                proof {
                    assert(ast.model() matches ExprModel::PerExpr { digit: md, option: mo }
                        && *md == digit.model() && *mo == option.model());
                }
                r2
            },
            _ => false,
        }
    }

    fn visit0(&self, env: &Environment, ast: &Expr) -> (r: bool)
        ensures
            r == expr_matches(ast.model(), env.now as int, env.max as int),
        decreases ast, 1int,
    {
        self.visit1(env, ast)
    }
}

/// Runtime test for membership in a stepped inclusive range.
fn in_stepped_exec(now: u8, from: u8, to: u8, step: u8) -> (r: bool)
    ensures
        r == in_stepped(now as int, from as int, to as int, step as int),
{
    if step > 0 {
        from <= now && now <= to && (now - from) % step == 0
    } else {
        now == from && from <= to
    }
}

/// The schedule whose five fields all accept anything matches every
/// instant.
pub proof fn lemma_any_schedule_matches(t: Instant)
    ensures
        eval_cron(
            ExprModel::CronExpr {
                mins: Box::new(ExprModel::AnyValueExpr),
                hours: Box::new(ExprModel::AnyValueExpr),
                days: Box::new(ExprModel::AnyValueExpr),
                months: Box::new(ExprModel::AnyValueExpr),
                day_of_weeks: Box::new(ExprModel::AnyValueExpr),
            },
            t,
        ),
{
}

/// The schedule whose five fields are all the literal 1 matches exactly
/// the instants whose minute, hour, day, month and weekday are all 1:
/// changing any single component away from 1 falsifies it.
pub proof fn lemma_point_schedule_matches(t: Instant)
    ensures
        eval_cron(
            ExprModel::CronExpr {
                mins: Box::new(ExprModel::ValueExpr(1)),
                hours: Box::new(ExprModel::ValueExpr(1)),
                days: Box::new(ExprModel::ValueExpr(1)),
                months: Box::new(ExprModel::ValueExpr(1)),
                day_of_weeks: Box::new(ExprModel::ValueExpr(1)),
            },
            t,
        ) == (t.minute == 1 && t.hour == 1 && t.day == 1 && t.month == 1 && weekday_of(
            t.year as int,
            t.month as int,
            t.day as int,
        ) == 1),
{
}

/// A list of literal values matches exactly the values listed: evaluating
/// any listed value is true, and any value absent from the list is false.
pub proof fn lemma_list_of_values_matches(vs: Seq<u8>, now: int, max: int)
    ensures
        expr_matches(
            ExprModel::ListExpr { exprs: Seq::new(vs.len(), |i: int| ExprModel::ValueExpr(vs[i])) },
            now,
            max,
        ) == (exists|i: int| 0 <= i < vs.len() && vs[i] == now),
{
    let ms = Seq::new(vs.len(), |i: int| ExprModel::ValueExpr(vs[i]));
    if exists|i: int| 0 <= i < vs.len() && vs[i] == now {
        let i = choose|i: int| 0 <= i < vs.len() && vs[i] == now;
        let lm = ExprModel::ListExpr { exprs: ms };
        assert(lm->ListExpr_exprs[i] == ExprModel::ValueExpr(vs[i]));
        assert(expr_matches(lm->ListExpr_exprs[i], now, max));
        assert(expr_matches(lm, now, max));
    }
    if expr_matches(ExprModel::ListExpr { exprs: ms }, now, max) {
        let k = choose|k: int| 0 <= k < ms.len() && expr_matches(#[trigger] ms[k], now, max);
        assert(ms[k] == ExprModel::ValueExpr(vs[k]));
        assert(vs[k] == now);
        assert(exists|i: int| 0 <= i < vs.len() && vs[i] == now);
    }
}

/// A stepped range `from-to/step` with a positive step matches exactly the
/// values `from, from + step, from + 2*step, …` that do not exceed `to`;
/// values between the steps do not match.
pub proof fn lemma_range_step_matches(from: u8, to: u8, step: u8, now: int, max: int)
    requires
        step > 0,
    ensures
        expr_matches(
            ExprModel::RangeExpr {
                from: Box::new(ExprModel::ValueExpr(from)),
                to: Box::new(ExprModel::ValueExpr(to)),
                per_option: Box::new(ExprModel::ValueExpr(step)),
            },
            now,
            max,
        ) == (exists|k: nat| now == from + #[trigger] (k * step) && now <= to),
{
    let m = ExprModel::RangeExpr {
        from: Box::new(ExprModel::ValueExpr(from)),
        to: Box::new(ExprModel::ValueExpr(to)),
        per_option: Box::new(ExprModel::ValueExpr(step)),
    };
    if expr_matches(m, now, max) {
        let q = (now - from) / (step as int);
        assert(now - from == (step as int) * q + (now - from) % (step as int)) by {
            vstd::arithmetic::div_mod::lemma_fundamental_div_mod(now - from, step as int);
        }
        assert(q >= 0) by {
            vstd::arithmetic::div_mod::lemma_div_pos_is_pos(now - from, step as int);
        }
        let k = q as nat;
        assert((step as int) * q == q * (step as int)) by (nonlinear_arith);
        assert(now == from + #[trigger] (k * step));
    }
    if exists|k: nat| now == from + #[trigger] (k * step) && now <= to {
        let k = choose|k: nat| now == from + #[trigger] (k * step) && now <= to;
        assert(k * step >= 0) by (nonlinear_arith)
            requires k >= 0 && step > 0,
        ;
        assert((now - from) % (step as int) == 0) by {
            vstd::arithmetic::div_mod::lemma_fundamental_div_mod_converse_mod(
                k as int * step as int,
                step as int,
                k as int,
                0,
            );
        }
    }
}

/// February has 29 days in a leap year and 28 otherwise.
pub proof fn lemma_february_days(year: int)
    ensures
        days_in_month(year, 2) == if is_leap_year(year) {
            29int
        } else {
            28int
        },
{
}

/// A schedule whose day-of-month field is the last-value marker matches
/// exactly the instants falling on the last day of their month, the
/// month's length being the day field's bound.
pub proof fn lemma_last_day_schedule_matches(t: Instant)
    ensures
        eval_cron(
            ExprModel::CronExpr {
                mins: Box::new(ExprModel::AnyValueExpr),
                hours: Box::new(ExprModel::AnyValueExpr),
                days: Box::new(ExprModel::LastValueExpr),
                months: Box::new(ExprModel::AnyValueExpr),
                day_of_weeks: Box::new(ExprModel::AnyValueExpr),
            },
            t,
        ) == (t.day as int == days_in_month(t.year as int, t.month as int)),
{
}

} // verus!
