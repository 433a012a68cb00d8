use friday::cron::{next_fire_after, schedule_is_plain, validate};
use friday::job::{Job, LoadError};
use friday::schedule::Scheduler;

fn job(name: &str, cron: &str) -> Job {
    Job::new(Some(name), Some(cron), Vec::new(), Vec::new())
}

const MINUTE: i64 = 60_000;

#[test]
fn six_field_expressions_are_accepted() {
    assert!(validate("* * * * * *"));
    assert!(validate("0 30 9,12,15 1,15 May-Aug Mon,Wed,Fri"));
    assert!(validate("0 0/5 * * * *"));
    assert!(validate("  0\t0 3 * * *  "));
}

#[test]
fn malformed_expressions_are_rejected() {
    assert!(!validate(""));
    assert!(!validate("Not_used"));
    assert!(!validate("* * * * *"));
    assert!(!validate("cheesecake 0,30 0,6,12,18 1,15 Jan-March Thurs"));
    assert!(!validate("61 * * * * *"));
    assert!(!validate("* * * * * * extra"));
}

#[test]
fn a_step_of_zero_is_rejected() {
    assert!(!schedule_is_plain("0/0 * * * * *"));
    assert!(!validate("0/0 * * * * *"));
    assert!(!validate("0 1/00 * * * *"));
    assert!(!validate("0 1/ * * * *"));
    assert!(schedule_is_plain("0 1/010 * * * *"));
}

#[test]
fn year_fields_and_shorthands_are_not_plain() {
    assert!(!schedule_is_plain("0 0 0 1 1 * 2030"));
    assert!(!schedule_is_plain("@daily"));
    assert!(!schedule_is_plain("****** "));
    assert!(!schedule_is_plain("* * * * * *5"));
    assert!(!schedule_is_plain("* * * * * MON1"));
    assert!(!schedule_is_plain("* * * * * 1;"));
    assert!(schedule_is_plain("* * * * * *"));
}

#[test]
fn next_fire_is_strictly_later() {
    assert_eq!(next_fire_after("0 * * * * *", 0), Some(MINUTE));
    assert_eq!(next_fire_after("0 * * * * *", MINUTE), Some(2 * MINUTE));
    assert_eq!(next_fire_after("0 * * * * *", MINUTE - 1), Some(MINUTE));
    assert_eq!(next_fire_after("* * * * * *", 1_500), Some(2_000));
}

#[test]
fn next_fire_follows_the_calendar() {
    assert_eq!(next_fire_after("0 0 0 1 1 *", 0), Some(365 * 24 * 60 * MINUTE));
    assert_eq!(next_fire_after("0 0 0 1 3 *", 0), Some(59 * 24 * 60 * MINUTE));
}

#[test]
fn next_fire_of_what_is_no_schedule_is_none() {
    assert_eq!(next_fire_after("Not_used", 0), None);
    assert_eq!(next_fire_after("0/0 * * * * *", 0), None);
    assert_eq!(next_fire_after("* * * * * *", -1), None);
    assert_eq!(next_fire_after("* * * * * *", i64::MAX), None);
}

#[test]
fn new_scheduler_is_empty() {
    let s = Scheduler::new();
    assert!(s.is_empty());
    assert_eq!(s.len(), 0);
    assert_eq!(s.time_until_next_fire(0), None);
    assert!(s.entry(0).is_none());
}

#[test]
fn least_wait_is_the_minimum_over_the_jobs() {
    let mut s = Scheduler::new();
    assert_eq!(s.add_job(job("five", "0 0/5 * * * *"), 0), Ok(()));
    assert_eq!(s.add_job(job("one", "0 * * * * *"), 0), Ok(()));
    assert_eq!(s.entry(0).expect("entry").next_fire(), Some(5 * MINUTE));
    assert_eq!(s.entry(1).expect("entry").next_fire(), Some(MINUTE));
    assert_eq!(s.time_until_next_fire(0), Some(60_000));
    assert_eq!(s.time_until_next_fire(30_000), Some(30_000));
}

#[test]
fn a_malformed_schedule_does_not_keep_the_next_job_out() {
    let mut s = Scheduler::new();
    assert_eq!(s.add_job(job("bad", "every now and then"), 0), Err(LoadError::BadSchedule));
    assert!(s.is_empty());
    assert_eq!(s.add_job(job("good", "0 * * * * *"), 0), Ok(()));
    assert_eq!(s.len(), 1);
    assert_eq!(s.entry(0).expect("entry").job().name(), "good");
}

#[test]
fn a_job_without_a_name_is_refused() {
    let mut s = Scheduler::new();
    assert_eq!(s.add_job(job("", "0 * * * * *"), 0), Err(LoadError::UnnamedJob));
    assert!(s.is_empty());
}

#[test]
fn placeholder_schedule_is_refused() {
    let mut s = Scheduler::new();
    let j = Job::new(Some("x"), None, Vec::new(), Vec::new());
    assert_eq!(s.add_job(j, 0), Err(LoadError::BadSchedule));
}

#[test]
fn tick_before_any_fire_time_finds_nothing() {
    let mut s = Scheduler::new();
    s.add_job(job("one", "0 * * * * *"), 0).expect("added");
    assert!(s.tick(MINUTE - 1).is_empty());
    assert_eq!(s.entry(0).expect("entry").next_fire(), Some(MINUTE));
}

#[test]
fn tick_fires_due_jobs_and_moves_them_on() {
    let mut s = Scheduler::new();
    s.add_job(job("five", "0 0/5 * * * *"), 0).expect("added");
    s.add_job(job("one", "0 * * * * *"), 0).expect("added");
    assert_eq!(s.tick(MINUTE), vec![1]);
    assert_eq!(s.entry(0).expect("entry").next_fire(), Some(5 * MINUTE));
    assert_eq!(s.entry(1).expect("entry").next_fire(), Some(2 * MINUTE));
    assert_eq!(s.time_until_next_fire(MINUTE), Some(60_000));
    assert!(s.tick(MINUTE).is_empty());
}

#[test]
fn tick_fires_all_due_jobs_in_catalog_order() {
    let mut s = Scheduler::new();
    s.add_job(job("five", "0 0/5 * * * *"), 0).expect("added");
    s.add_job(job("one", "0 * * * * *"), 0).expect("added");
    s.add_job(job("hour", "0 0 * * * *"), 0).expect("added");
    assert_eq!(s.tick(5 * MINUTE + 500), vec![0, 1]);
    assert_eq!(s.entry(0).expect("entry").next_fire(), Some(10 * MINUTE));
    assert_eq!(s.entry(1).expect("entry").next_fire(), Some(6 * MINUTE));
    assert_eq!(s.entry(2).expect("entry").next_fire(), Some(60 * MINUTE));
}

#[test]
fn a_late_tick_fires_a_job_once() {
    let mut s = Scheduler::new();
    s.add_job(job("one", "0 * * * * *"), 0).expect("added");
    assert_eq!(s.tick(10 * MINUTE + 1), vec![0]);
    assert_eq!(s.entry(0).expect("entry").next_fire(), Some(11 * MINUTE));
}

#[test]
fn a_passed_fire_time_means_no_wait() {
    let mut s = Scheduler::new();
    s.add_job(job("one", "0 * * * * *"), 0).expect("added");
    assert_eq!(s.time_until_next_fire(3 * MINUTE), Some(0));
}

#[test]
fn a_job_added_outside_the_range_of_times_never_fires() {
    let mut s = Scheduler::new();
    assert_eq!(s.add_job(job("one", "0 * * * * *"), -5), Ok(()));
    assert_eq!(s.entry(0).expect("entry").next_fire(), None);
    assert_eq!(s.time_until_next_fire(0), None);
    assert!(s.tick(MINUTE).is_empty());
}
