use crond::ast::Expr;
use crond::calendar::Instant;
use crond::cron_evaluator::{get_days_from_month, CronEvaluator, Environment};

fn instant(year: u32, month: u8, day: u8, hour: u8, minute: u8) -> Instant {
    Instant { year, month, day, hour, minute }
}

fn any_schedule() -> Expr {
    Expr::CronExpr {
        mins: Box::from(Expr::AnyValueExpr),
        hours: Box::from(Expr::AnyValueExpr),
        days: Box::from(Expr::AnyValueExpr),
        months: Box::from(Expr::AnyValueExpr),
        day_of_weeks: Box::from(Expr::AnyValueExpr),
    }
}

#[test]
fn test_anytime() {
    let date_time = instant(2021, 1, 1, 1, 1);
    let cron_evaluator = CronEvaluator::new(&date_time);
    let expr = any_schedule();
    let result = cron_evaluator.eval(&expr);
    assert!(result)
}

#[test]
fn test_point_time() {
    let date_time = instant(2021, 1, 1, 1, 1);
    let cron_evaluator = CronEvaluator::new(&date_time);
    let expr = Expr::CronExpr {
        mins: Box::from(Expr::ValueExpr(1)),
        hours: Box::from(Expr::ValueExpr(1)),
        days: Box::from(Expr::ValueExpr(1)),
        months: Box::from(Expr::ValueExpr(1)),
        day_of_weeks: Box::from(Expr::AnyValueExpr),
    };
    let result = cron_evaluator.eval(&expr);
    assert!(result)
}

#[test]
fn test_point_time_negative() {
    // changing any single matching component falsifies the point schedule
    let expr = Expr::CronExpr {
        mins: Box::from(Expr::ValueExpr(1)),
        hours: Box::from(Expr::ValueExpr(1)),
        days: Box::from(Expr::ValueExpr(1)),
        months: Box::from(Expr::ValueExpr(1)),
        day_of_weeks: Box::from(Expr::AnyValueExpr),
    };
    for t in [
        instant(2021, 1, 1, 1, 2),
        instant(2021, 1, 1, 2, 1),
        instant(2021, 1, 2, 1, 1),
        instant(2021, 2, 1, 1, 1),
    ] {
        assert!(!CronEvaluator::new(&t).eval(&expr));
    }
}

#[test]
fn test_anytime_many_instants() {
    let expr = any_schedule();
    for t in [
        instant(1, 1, 1, 0, 0),
        instant(2021, 6, 15, 12, 30),
        instant(2400, 2, 29, 23, 59),
    ] {
        assert!(CronEvaluator::new(&t).eval(&expr));
    }
}

#[test]
fn test_environment_new() {
    let env = Environment::new(5, 59);
    let _ = env.clone();
    assert_eq!(env.now, 5);
    assert_eq!(env.max, 59);
}

#[test]
fn test_list_round_trip() {
    // a list of minute literals matches the listed minutes and no others
    let expr = Expr::CronExpr {
        mins: Box::from(Expr::ListExpr {
            exprs: vec![Expr::ValueExpr(0), Expr::ValueExpr(5), Expr::ValueExpr(10)],
        }),
        hours: Box::from(Expr::AnyValueExpr),
        days: Box::from(Expr::AnyValueExpr),
        months: Box::from(Expr::AnyValueExpr),
        day_of_weeks: Box::from(Expr::AnyValueExpr),
    };
    for minute in 0u8..60 {
        let t = instant(2021, 1, 1, 0, minute);
        let expected = minute == 0 || minute == 5 || minute == 10;
        assert_eq!(CronEvaluator::new(&t).eval(&expr), expected);
    }
}

#[test]
fn test_range_step_eval() {
    // 10-40/15 matches 10, 25, 40 and nothing between or outside
    let expr = Expr::CronExpr {
        mins: Box::from(Expr::RangeExpr {
            from: Box::from(Expr::ValueExpr(10)),
            to: Box::from(Expr::ValueExpr(40)),
            per_option: Box::from(Expr::ValueExpr(15)),
        }),
        hours: Box::from(Expr::AnyValueExpr),
        days: Box::from(Expr::AnyValueExpr),
        months: Box::from(Expr::AnyValueExpr),
        day_of_weeks: Box::from(Expr::AnyValueExpr),
    };
    for minute in 0u8..60 {
        let t = instant(2021, 1, 1, 0, minute);
        let expected = minute == 10 || minute == 25 || minute == 40;
        assert_eq!(CronEvaluator::new(&t).eval(&expr), expected);
    }
}

#[test]
fn test_range_without_step_eval() {
    let expr = Expr::CronExpr {
        mins: Box::from(Expr::RangeExpr {
            from: Box::from(Expr::ValueExpr(20)),
            to: Box::from(Expr::ValueExpr(25)),
            per_option: Box::from(Expr::NoOp),
        }),
        hours: Box::from(Expr::AnyValueExpr),
        days: Box::from(Expr::AnyValueExpr),
        months: Box::from(Expr::AnyValueExpr),
        day_of_weeks: Box::from(Expr::AnyValueExpr),
    };
    for minute in 0u8..60 {
        let t = instant(2021, 1, 1, 0, minute);
        let expected = (20..=25).contains(&minute);
        assert_eq!(CronEvaluator::new(&t).eval(&expr), expected);
    }
}

#[test]
fn test_leap_year_days() {
    assert_eq!(get_days_from_month(2020, 2), Some(29));
    assert_eq!(get_days_from_month(2021, 2), Some(28));
    assert_eq!(get_days_from_month(2000, 2), Some(29));
    assert_eq!(get_days_from_month(1900, 2), Some(28));
    assert_eq!(get_days_from_month(2021, 4), Some(30));
    assert_eq!(get_days_from_month(2021, 12), Some(31));
    assert_eq!(get_days_from_month(2021, 13), None);
    assert_eq!(get_days_from_month(2021, 0), None);
}

#[test]
fn test_last_day_of_month() {
    let expr = Expr::CronExpr {
        mins: Box::from(Expr::AnyValueExpr),
        hours: Box::from(Expr::AnyValueExpr),
        days: Box::from(Expr::LastValueExpr),
        months: Box::from(Expr::AnyValueExpr),
        day_of_weeks: Box::from(Expr::AnyValueExpr),
    };
    // leap year: February's last day is the 29th
    assert!(CronEvaluator::new(&instant(2020, 2, 29, 0, 0)).eval(&expr));
    assert!(!CronEvaluator::new(&instant(2020, 2, 28, 0, 0)).eval(&expr));
    // non-leap year: the 28th
    assert!(CronEvaluator::new(&instant(2021, 2, 28, 0, 0)).eval(&expr));
    assert!(!CronEvaluator::new(&instant(2021, 2, 27, 0, 0)).eval(&expr));
}

#[test]
fn test_weekday_numbering() {
    // 2021-01-01 was a Friday; Sunday is 1, so Friday is 6
    assert_eq!(Instant::new(2021, 1, 1, 0, 0).weekday(), 6);
    // 2021-01-03 was a Sunday
    assert_eq!(instant(2021, 1, 3, 0, 0).weekday(), 1);
    // 2000-01-01 was a Saturday
    assert_eq!(instant(2000, 1, 1, 0, 0).weekday(), 7);
}

#[test]
fn test_day_of_week_eval() {
    let friday = Expr::CronExpr {
        mins: Box::from(Expr::AnyValueExpr),
        hours: Box::from(Expr::AnyValueExpr),
        days: Box::from(Expr::AnyValueExpr),
        months: Box::from(Expr::AnyValueExpr),
        day_of_weeks: Box::from(Expr::ValueExpr(6)),
    };
    assert!(CronEvaluator::new(&instant(2021, 1, 1, 0, 0)).eval(&friday));
    assert!(!CronEvaluator::new(&instant(2021, 1, 2, 0, 0)).eval(&friday));
}

#[test]
fn test_zero_step_is_total() {
    // a zero step never panics; the stepped sequence holds only its base
    let expr = Expr::CronExpr {
        mins: Box::from(Expr::RangeExpr {
            from: Box::from(Expr::ValueExpr(5)),
            to: Box::from(Expr::ValueExpr(10)),
            per_option: Box::from(Expr::ValueExpr(0)),
        }),
        hours: Box::from(Expr::AnyValueExpr),
        days: Box::from(Expr::AnyValueExpr),
        months: Box::from(Expr::AnyValueExpr),
        day_of_weeks: Box::from(Expr::AnyValueExpr),
    };
    assert!(CronEvaluator::new(&instant(2021, 1, 1, 0, 5)).eval(&expr));
    assert!(!CronEvaluator::new(&instant(2021, 1, 1, 0, 10)).eval(&expr));
}

#[test]
fn test_non_root_eval_is_false() {
    // the evaluator is total: a non-root tree in root position never matches
    let t = instant(2021, 1, 1, 1, 1);
    assert!(!CronEvaluator::new(&t).eval(&Expr::AnyValueExpr));
    assert!(!CronEvaluator::new(&t).eval(&Expr::NoOp));
}
