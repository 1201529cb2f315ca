use crond::calendar::Instant;
use crond::cron_schedule::CronSchedule;

fn instant(year: u32, month: u8, day: u8, hour: u8, minute: u8) -> Instant {
    Instant { year, month, day, hour, minute }
}

#[test]
fn cron_schedule_test_iterator() {
    let dt = instant(2021, 1, 1, 1, 1);

    let mut itr = CronSchedule::new("0-59/30 0-23/2 * * *").unwrap().upcoming(dt);

    let mut dt_vec = Vec::new();
    for _ in 0..5 {
        dt_vec.push(itr.next().unwrap());
    }
    assert_eq!(dt_vec[0], instant(2021, 1, 1, 2, 0));
    assert_eq!(dt_vec[1], instant(2021, 1, 1, 2, 30));
    assert_eq!(dt_vec[2], instant(2021, 1, 1, 4, 0));
    assert_eq!(dt_vec[3], instant(2021, 1, 1, 4, 30));
    assert_eq!(dt_vec[4], instant(2021, 1, 1, 6, 0));
}

#[test]
fn test_schedule_rejects_bad_string() {
    assert!(CronSchedule::new("not a schedule").is_err());
    assert!(CronSchedule::new("0-59/30 0-23/2 * *").is_err());
}

#[test]
fn test_schedule_interval_bounds() {
    let dt = instant(2021, 6, 1, 0, 0);
    let schedule = CronSchedule::new("* * * * *").unwrap();
    let interval = schedule.cron_interval(dt);
    let mut itr = interval.iter();
    assert_eq!(itr.next(), Some(dt));
}
