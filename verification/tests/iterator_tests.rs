use crond::calendar::Instant;
use crond::cron_interval::{CronInterval, LimitValue};
use crond::cron_interval_iterator::CronIntervalIterator;
use crond::cron_parser::CronParser;
use crond::cron_specification::CronSpecification;

fn instant(year: u32, month: u8, day: u8, hour: u8, minute: u8) -> Instant {
    Instant { year, month, day, hour, minute }
}

#[test]
fn cron_interval_test_iterator() {
    let dt = instant(2021, 1, 1, 1, 1);

    let expr = CronParser::parse("0-59/30 0-23/2 * * *").unwrap();
    let interval = CronInterval::new(
        LimitValue::Limit(dt),
        LimitValue::Limitless,
        CronSpecification::new(expr),
    );
    let mut itr = interval.iter();
    for _ in 0..5 {
        let e = itr.next().unwrap();
        println!("{:?}", e);
    }
}

#[test]
fn cron_interval_iterator_test_iterator() {
    let dt = instant(2021, 1, 1, 1, 1);

    let expr = CronParser::parse("0-59/30 0-23/2 * * *").unwrap();
    let interval = CronInterval::new(
        LimitValue::Limit(dt),
        LimitValue::Limitless,
        CronSpecification::new(expr),
    );
    let mut itr = CronIntervalIterator::new(dt, dt, interval);
    for _ in 0..5 {
        let e = itr.next().unwrap();
        println!("{:?}", e);
    }
}

#[test]
fn test_iterator_values() {
    let dt = instant(2021, 1, 1, 1, 1);
    let expr = CronParser::parse("0-59/30 0-23/2 * * *").unwrap();
    let interval = CronInterval::new(
        LimitValue::Limit(dt),
        LimitValue::Limitless,
        CronSpecification::new(expr),
    );
    let mut itr = interval.iter();
    assert_eq!(itr.next(), Some(instant(2021, 1, 1, 2, 0)));
    assert_eq!(itr.next(), Some(instant(2021, 1, 1, 2, 30)));
    assert_eq!(itr.next(), Some(instant(2021, 1, 1, 4, 0)));
}

#[test]
fn test_empty_when_end_before_start() {
    // an end bound strictly before the start yields zero values
    let start = instant(2021, 1, 1, 1, 1);
    let end = instant(2021, 1, 1, 1, 0);
    let expr = CronParser::parse("* * * * *").unwrap();
    let interval = CronInterval::new(
        LimitValue::Limit(start),
        LimitValue::Limit(end),
        CronSpecification::new(expr),
    );
    let mut itr = interval.iter();
    assert_eq!(itr.next(), None);
    assert_eq!(itr.next(), None);
}

#[test]
fn test_end_bound_cuts_sequence() {
    let start = instant(2021, 1, 1, 0, 0);
    let end = instant(2021, 1, 1, 0, 2);
    let expr = CronParser::parse("* * * * *").unwrap();
    let interval = CronInterval::new(
        LimitValue::Limit(start),
        LimitValue::Limit(end),
        CronSpecification::new(expr),
    );
    let mut itr = interval.iter();
    assert_eq!(itr.next(), Some(instant(2021, 1, 1, 0, 0)));
    assert_eq!(itr.next(), Some(instant(2021, 1, 1, 0, 1)));
    assert_eq!(itr.next(), Some(instant(2021, 1, 1, 0, 2)));
    assert_eq!(itr.next(), None);
}

#[test]
fn test_iterator_crosses_month_end() {
    // the scan carries over a leap-year February correctly
    let start = instant(2020, 2, 29, 23, 59);
    let expr = CronParser::parse("0 0 1 * *").unwrap();
    let interval = CronInterval::new(
        LimitValue::Limit(start),
        LimitValue::Limitless,
        CronSpecification::new(expr),
    );
    let mut itr = interval.iter();
    assert_eq!(itr.next(), Some(instant(2020, 3, 1, 0, 0)));
    assert_eq!(itr.next(), Some(instant(2020, 4, 1, 0, 0)));
}

#[test]
fn test_accessors() {
    let dt = instant(2021, 1, 1, 0, 0);
    let expr = CronParser::parse("* * * * *").unwrap();
    let interval = CronInterval::new(
        LimitValue::Limit(dt),
        LimitValue::Limitless,
        CronSpecification::new(expr),
    );
    let itr = interval.iter();
    assert_eq!(itr.cron_interval().start, LimitValue::Limit(dt));
    assert_eq!(itr.cron_interval().end, LimitValue::Limitless::<Instant>);
}
