use crond::ast::Expr;
use crond::cron_parser::{
    asterisk_per, day_digit, digit_instruction, hour_digit, list, min_digit, month_digit, per,
    CronParser, FieldType,
};

#[test]
fn test_instruction() {
    let result = CronParser::parse("* * * * *").unwrap();
    assert_eq!(
        result,
        Expr::CronExpr {
            mins: Box::from(Expr::AnyValueExpr),
            hours: Box::from(Expr::AnyValueExpr),
            days: Box::from(Expr::AnyValueExpr),
            months: Box::from(Expr::AnyValueExpr),
            day_of_weeks: Box::from(Expr::AnyValueExpr)
        }
    );
    let result = CronParser::parse("1 1 1 1 1").unwrap();
    assert_eq!(
        result,
        Expr::CronExpr {
            mins: Box::from(Expr::ValueExpr(1)),
            hours: Box::from(Expr::ValueExpr(1)),
            days: Box::from(Expr::ValueExpr(1)),
            months: Box::from(Expr::ValueExpr(1)),
            day_of_weeks: Box::from(Expr::ValueExpr(1))
        }
    );
}

#[test]
fn test_digit_instruction() {
    let result = digit_instruction(FieldType::Mins, "*").unwrap();
    assert_eq!(result, Expr::AnyValueExpr);
    let result = digit_instruction(FieldType::Mins, "*/2").unwrap();
    assert_eq!(
        result,
        Expr::PerExpr {
            digit: Box::from(Expr::AnyValueExpr),
            option: Box::from(Expr::ValueExpr(2))
        }
    );
    let result = digit_instruction(FieldType::Mins, "1-10/2").unwrap();
    assert_eq!(
        result,
        Expr::RangeExpr {
            from: Box::from(Expr::ValueExpr(1)),
            to: Box::from(Expr::ValueExpr(10)),
            per_option: Box::from(Expr::ValueExpr(2))
        }
    );
    let result = digit_instruction(FieldType::Mins, "1,2,3").unwrap();
    assert_eq!(
        result,
        Expr::ListExpr {
            exprs: vec![Expr::ValueExpr(1), Expr::ValueExpr(2), Expr::ValueExpr(3)]
        }
    );
    let result = digit_instruction(FieldType::Mins, "1").unwrap();
    assert_eq!(result, Expr::ValueExpr(1));
}

#[test]
fn test_list() {
    let s = (0..=59).map(|v| v.to_string()).collect::<Vec<_>>().join(",");
    let result = list(FieldType::Mins, &s).unwrap();
    let values = (0..=59).map(Expr::ValueExpr).collect::<Vec<_>>();
    assert_eq!(result, Expr::ListExpr { exprs: values });
}

#[test]
fn test_range() {
    for n2 in 1..=59 {
        let option = n2 / 2;
        let n1 = n2 - 1;
        let s: &str = &format!("{:<02}-{:<02}/{:<02}", n1, n2, option);
        println!("{}", s);
        let result = list(FieldType::Mins, s).unwrap();
        assert_eq!(
            result,
            Expr::RangeExpr {
                from: Box::from(Expr::ValueExpr(n1)),
                to: Box::from(Expr::ValueExpr(n2)),
                per_option: Box::from(Expr::ValueExpr(option)),
            }
        );
    }
}

#[test]
fn test_asterisk_per() {
    for n in 0..59 {
        let s: &str = &format!("*/{:<02}", n);
        let result = asterisk_per(FieldType::Mins, s).unwrap();
        assert_eq!(
            result,
            Expr::PerExpr {
                digit: Box::from(Expr::AnyValueExpr),
                option: Box::from(Expr::ValueExpr(n)),
            }
        );
    }
}

#[test]
fn test_per() {
    let result = per(FieldType::Mins, "/2").unwrap();
    assert_eq!(result, Expr::ValueExpr(2));
}

#[test]
fn test_min_digit() {
    for n in 0..59 {
        let s: &str = &format!("{:<02}", n);
        let result = min_digit(s).unwrap();
        assert_eq!(result, Expr::ValueExpr(n));
    }
    let result = min_digit("60");
    assert_eq!(result.is_none(), true);
}

#[test]
fn test_hour_digit() {
    for n in 0..=23 {
        if n < 10 {
            let s: &str = &n.to_string();
            let result: Expr = hour_digit(s).unwrap();
            assert_eq!(result, Expr::ValueExpr(n));
        }
        let s: &str = &format!("{:<02}", n);
        let result: Expr = hour_digit(s).unwrap();
        assert_eq!(result, Expr::ValueExpr(n));
    }
    let result = hour_digit("24");
    assert_eq!(result.is_none(), true);
}

#[test]
fn test_day_digit() {
    for n in 1..=31 {
        if n < 10 {
            let s: &str = &n.to_string();
            let result: Expr = day_digit(s).unwrap();
            assert_eq!(result, Expr::ValueExpr(n));
        }
        let s: &str = &format!("{:<02}", n);
        let result: Expr = day_digit(s).unwrap();
        assert_eq!(result, Expr::ValueExpr(n));
    }
    let result = day_digit("32");
    assert_eq!(result.is_none(), true);
}

#[test]
fn test_month_digit() {
    for n in 1..=12 {
        if n < 10 {
            let s: &str = &n.to_string();
            let result: Expr = month_digit(s).unwrap();
            assert_eq!(result, Expr::ValueExpr(n));
        }
        let s: &str = &format!("{:<02}", n);
        let result: Expr = month_digit(s).unwrap();
        assert_eq!(result, Expr::ValueExpr(n));
    }
    let result = month_digit("13");
    assert_eq!(result.is_none(), true);
}

#[test]
fn test_day_of_week_names() {
    let expr = digit_instruction(FieldType::DayOfWeeks, "SUN").unwrap();
    assert_eq!(expr, Expr::ValueExpr(1));
    let expr = digit_instruction(FieldType::DayOfWeeks, "sat").unwrap();
    assert_eq!(expr, Expr::ValueExpr(7));
    let expr = digit_instruction(FieldType::DayOfWeeks, "L").unwrap();
    assert_eq!(expr, Expr::LastValueExpr);
    let expr = digit_instruction(FieldType::DayOfWeeks, "7").unwrap();
    assert_eq!(expr, Expr::ValueExpr(7));
    assert!(digit_instruction(FieldType::DayOfWeeks, "8").is_none());
}

#[test]
fn test_parse_errors() {
    assert!(CronParser::parse("").is_err());
    assert!(CronParser::parse("* * * *").is_err());
    assert!(CronParser::parse("60 * * * *").is_err());
    assert!(CronParser::parse("* 24 * * *").is_err());
    assert!(CronParser::parse("* * 32 * *").is_err());
    assert!(CronParser::parse("* * * 13 *").is_err());
    assert!(CronParser::parse("* * * * 8").is_err());
    assert!(CronParser::parse("* * * * * *").is_err());
    assert!(CronParser::parse("*  * * * *").is_err());
    assert!(CronParser::parse("5-3 * * * *").is_err());
    let err = CronParser::parse("x * * * *").unwrap_err();
    assert!(err.position == 0);
}
