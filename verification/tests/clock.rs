use bili_ticker_buy::buy::{pre_sale_plan, PreSalePlan, PRE_SALE_RESTART_BEFORE_START_MS};
use bili_ticker_buy::clock::{invalid_schedule_message, parse_beijing_time, schedule_start, ScheduleStart};
use bili_ticker_buy::session::{login_poll_again, LOGIN_POLL_ATTEMPTS};

#[test]
fn no_schedule_starts_at_once() {
    assert!(matches!(schedule_start(None), ScheduleStart::Immediately));
}

#[test]
fn readable_schedule_waits_for_its_time() {
    let expected = parse_beijing_time("2026-06-19 12:34").unwrap();
    match schedule_start(Some("2026-06-19 12:34")) {
        ScheduleStart::At(t) => assert_eq!(t, expected),
        _ => panic!("expected a scheduled start"),
    }
}

#[test]
fn unreadable_schedule_reports_its_message() {
    let expected = "Invalid scheduled start time format: tomorrow. Expected YYYY-MM-DD HH:mm or YYYY-MM-DD HH:mm:ss.";
    assert_eq!(invalid_schedule_message("tomorrow"), expected);
    match schedule_start(Some("tomorrow")) {
        ScheduleStart::Invalid(m) => assert_eq!(m, expected),
        _ => panic!("expected an invalid schedule"),
    }
}

#[test]
fn beijing_time_texts() {
    let t = parse_beijing_time("2026-06-19 12:34:56").unwrap();
    assert_eq!(t.history_text().unwrap(), "2026-06-19 12:34:56");
    assert_eq!(t.log_text().unwrap(), "2026-06-19 12:34:56.000");
}

#[test]
fn pre_sale_plan_restarts_only_with_time_to_spare() {
    assert_eq!(pre_sale_plan(true, PRE_SALE_RESTART_BEFORE_START_MS + 1), PreSalePlan::WaitForRestart);
    assert_eq!(pre_sale_plan(true, PRE_SALE_RESTART_BEFORE_START_MS), PreSalePlan::WaitForSale);
    assert_eq!(pre_sale_plan(false, PRE_SALE_RESTART_BEFORE_START_MS * 10), PreSalePlan::WaitForSale);
    assert_eq!(pre_sale_plan(true, -5), PreSalePlan::WaitForSale);
}

#[test]
fn login_polls_stop_after_the_limit() {
    assert_eq!(LOGIN_POLL_ATTEMPTS, 120);
    assert!(login_poll_again(0));
    assert!(login_poll_again(119));
    assert!(!login_poll_again(120));
    assert!(!login_poll_again(500));
}
