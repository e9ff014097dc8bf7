use bili_ticker_buy::buy::{
    answer_code, background_sync_frozen, opening_burst_open, before_sale, clamp_interval, consume_attempt, create_outcome, create_url,
    get_error_message, jitter_with, max_create_attempts, offset_sync_step, pay_param_url,
    precise_interval_sleep_duration, prepare_failure, prepare_gate_decision, prepare_url,
    reflow_base_for_hour, resolve_active_strategy, restart_task, should_log_attempt, should_log_create_delay,
    should_restart_before_sale, sleep_slice_ms, strip_padding, usable_contact_tel, wait_step,
    ActiveStrategy, AdaptiveDelayController, AttemptOutcome, BuyTaskOutcome, CreateOutcome,
    OffsetSyncAction, RequestPhase, StrategyMode, WaitStep, BEIJING_OFFSET_SECONDS,
    FIRST_412_COOLDOWN_MS, PRE_SALE_RESTART_BEFORE_START_MS, REPEATED_412_COOLDOWN_MS,
};
use bili_ticker_buy::clock::{parse_beijing_time, pre_sale_restart_time, remaining_ms_until, BeijingTime};
use std::time::{Duration, Instant};

#[test]
fn parses_scheduled_time_as_beijing_time() {
    let parsed = parse_beijing_time("2026-06-19 12:34:56").unwrap();

    assert_eq!(parsed.offset_local_minus_utc(), BEIJING_OFFSET_SECONDS);
    assert_eq!(parsed.hour(), 12);
    assert_eq!(parsed.minute(), 34);
    assert_eq!(parsed.second(), 56);
}

#[test]
fn parses_frontend_datetime_local_without_seconds() {
    let parsed = parse_beijing_time("2026-06-19 07:10").unwrap();

    assert_eq!(parsed.offset_local_minus_utc(), BEIJING_OFFSET_SECONDS);
    assert_eq!(parsed.hour(), 7);
    assert_eq!(parsed.minute(), 10);
    assert_eq!(parsed.second(), 0);
}

#[test]
fn parses_frontend_datetime_local_separator() {
    let parsed = parse_beijing_time("2026-06-19T07:10").unwrap();

    assert_eq!(parsed.offset_local_minus_utc(), BEIJING_OFFSET_SECONDS);
    assert_eq!(parsed.hour(), 7);
    assert_eq!(parsed.minute(), 10);
    assert_eq!(parsed.second(), 0);
}

#[test]
fn prepare_gate_blocks_before_sale_time() {
    let decision = prepare_gate_decision(1);

    assert!(!decision.allowed);
    assert_eq!(decision.remaining_ms, 1);
}

#[test]
fn prepare_gate_allows_at_sale_time() {
    let decision = prepare_gate_decision(0);

    assert!(decision.allowed);
    assert_eq!(decision.remaining_ms, 0);
}

#[test]
fn token_expiry_uses_immediate_retry_to_reprepare() {
    let mut controller = AdaptiveDelayController::new(ActiveStrategy::Opening, 500);

    assert_eq!(
        controller.next_delay_ms(RequestPhase::Create, AttemptOutcome::Code(100051)),
        0
    );
}

#[test]
fn first_412_cools_down_for_one_minute() {
    let mut controller = AdaptiveDelayController::new(ActiveStrategy::Reflow, 500);

    assert_eq!(
        controller.next_delay_ms(RequestPhase::Create, AttemptOutcome::Code(412)),
        FIRST_412_COOLDOWN_MS
    );
}

#[test]
fn repeated_412_within_ten_minutes_cools_down_for_five_minutes() {
    let mut controller = AdaptiveDelayController::new(ActiveStrategy::Reflow, 500);
    controller.last_412_at = Some(Instant::now() - Duration::from_secs(9 * 60));

    assert_eq!(
        controller.next_delay_ms(RequestPhase::Create, AttemptOutcome::Code(412)),
        REPEATED_412_COOLDOWN_MS
    );
}

#[test]
fn old_412_resets_to_one_minute_cooldown() {
    let mut controller = AdaptiveDelayController::new(ActiveStrategy::Reflow, 500);
    controller.last_412_at = Some(Instant::now() - Duration::from_secs(31 * 60));

    assert_eq!(
        controller.next_delay_ms(RequestPhase::Create, AttemptOutcome::Code(412)),
        FIRST_412_COOLDOWN_MS
    );
}

#[test]
fn busy_code_waits_at_least_one_second() {
    let mut controller = AdaptiveDelayController::new(ActiveStrategy::Opening, 250);

    assert!(controller.next_delay_ms(RequestPhase::Create, AttemptOutcome::Code(900001)) >= 1_000);
    assert!(controller.next_delay_ms(RequestPhase::Create, AttemptOutcome::Code(900002)) >= 1_000);
}

#[test]
fn auto_strategy_uses_opening_when_schedule_was_future() {
    assert_eq!(resolve_active_strategy(StrategyMode::Auto, true), ActiveStrategy::Opening);
}

#[test]
fn auto_strategy_uses_reflow_without_future_schedule() {
    assert_eq!(resolve_active_strategy(StrategyMode::Auto, false), ActiveStrategy::Reflow);
}

#[test]
fn requires_pre_sale_restart_before_final_minute() {
    assert!(should_restart_before_sale(PRE_SALE_RESTART_BEFORE_START_MS + 1));
}

#[test]
fn skips_pre_sale_restart_inside_final_minute() {
    assert!(!should_restart_before_sale(PRE_SALE_RESTART_BEFORE_START_MS));
    assert!(!should_restart_before_sale(1));
    assert!(!should_restart_before_sale(0));
    assert!(!should_restart_before_sale(-1));
}

#[test]
fn pre_sale_restart_time_is_one_minute_before_sale() {
    let target = parse_beijing_time("2026-06-19 12:34:56").unwrap();
    let restart_at = pre_sale_restart_time(&target);

    assert_eq!(
        target.timestamp_ms - restart_at.timestamp_ms,
        PRE_SALE_RESTART_BEFORE_START_MS
    );
    assert_eq!(restart_at.hour(), 12);
    assert_eq!(restart_at.minute(), 33);
    assert_eq!(restart_at.second(), 56);
}

#[test]
fn unparsable_schedules_are_refused() {
    assert!(parse_beijing_time("2026/06/19 12:34").is_none());
    assert!(parse_beijing_time("").is_none());
    let t = parse_beijing_time("2026-06-19T12:34:56").unwrap();
    assert_eq!(t.hour(), 12);
    assert_eq!(t.second(), 56);
}

#[test]
fn remaining_time_subtracts_offset_and_now() {
    let target = BeijingTime { timestamp_ms: 10_000 };
    let now = BeijingTime { timestamp_ms: 4_000 };
    assert_eq!(remaining_ms_until(&target, 1_000, &now), 5_000);
    assert_eq!(remaining_ms_until(&target, -1_000, &now), 7_000);
}

#[test]
fn strategy_modes_from_text() {
    assert_eq!(StrategyMode::from_option(None), StrategyMode::Auto);
    assert_eq!(StrategyMode::from_option(Some(" Opening ")), StrategyMode::Opening);
    assert_eq!(StrategyMode::from_option(Some("REFLOW")), StrategyMode::Reflow);
    assert_eq!(StrategyMode::from_option(Some("other")), StrategyMode::Auto);
    assert_eq!(resolve_active_strategy(StrategyMode::Reflow, true), ActiveStrategy::Reflow);
    assert_eq!(resolve_active_strategy(StrategyMode::Opening, false), ActiveStrategy::Opening);
    assert_eq!(ActiveStrategy::Opening.label(), "开票");
    assert_eq!(ActiveStrategy::Reflow.label(), "回流");
}

#[test]
fn error_messages() {
    assert_eq!(get_error_message(0), "成功");
    assert_eq!(get_error_message(412), "请求异常 412");
    assert_eq!(get_error_message(221), "购票暂不可用");
    assert_eq!(get_error_message(900002), "当前拥挤，请稍后再试");
    assert_eq!(get_error_message(123456), "未知错误码");
}

#[test]
fn pacing_helpers() {
    assert_eq!(clamp_interval(100, 250, 1_000), 250);
    assert_eq!(clamp_interval(5_000, 250, 1_000), 1_000);
    assert_eq!(clamp_interval(600, 250, 1_000), 600);
    assert_eq!(jitter_with(1_000, 80), 1_080);
    assert_eq!(jitter_with(1_000, 81), 1_000);
    assert_eq!(jitter_with(u64::MAX, 5), u64::MAX);
    assert_eq!(precise_interval_sleep_duration(300, 1_000), Some(700));
    assert_eq!(precise_interval_sleep_duration(1_000, 1_000), None);
    assert_eq!(sleep_slice_ms(120), 120);
    assert_eq!(sleep_slice_ms(5_000), 500);
}

#[test]
fn daytime_reflow_base_by_hour() {
    assert_eq!(reflow_base_for_hour(100, 3), 1_500);
    assert_eq!(reflow_base_for_hour(9_000, 2), 5_000);
    assert_eq!(reflow_base_for_hour(1_000, 12), 1_000);
    assert_eq!(reflow_base_for_hour(100, 8), 250);
    assert_eq!(reflow_base_for_hour(9_000, 23), 1_500);
}

#[test]
fn opening_pacing_by_outcome() {
    let c = AdaptiveDelayController::new(ActiveStrategy::Opening, 100);
    assert_eq!(c.opening_delay_ms_with(AttemptOutcome::Code(219), true, 0), 5_000);
    assert_eq!(c.opening_delay_ms_with(AttemptOutcome::Code(100009), true, 0), 250);
    assert_eq!(c.opening_delay_ms_with(AttemptOutcome::Code(100009), false, 0), 1_000);
    assert_eq!(c.opening_delay_ms_with(AttemptOutcome::NetworkError, true, 0), 500);
    assert_eq!(c.opening_delay_ms_with(AttemptOutcome::Code(429), true, 10), 260);
}

#[test]
fn reflow_pacing_by_outcome() {
    let c = AdaptiveDelayController::new(ActiveStrategy::Reflow, 100);
    assert_eq!(c.reflow_delay_ms_with(AttemptOutcome::Code(100009), 100, 0), 700);
    assert_eq!(c.reflow_delay_ms_with(AttemptOutcome::Code(1), 1_234, 0), 1_234);
    assert_eq!(c.reflow_delay_ms_with(AttemptOutcome::NetworkError, 100, 0), 1_000);
    assert_eq!(c.reflow_delay_ms_with(AttemptOutcome::Code(100051), 100, 0), 0);
}

#[test]
fn controller_counts_failures() {
    let mut c = AdaptiveDelayController::new(ActiveStrategy::Opening, 0);
    assert_eq!(c.base_interval_ms, 1);
    c.next_delay(RequestPhase::Prepare, AttemptOutcome::Code(429));
    c.next_delay(RequestPhase::Prepare, AttemptOutcome::Code(429));
    assert_eq!(c.consecutive_429, 2);
    c.next_delay(RequestPhase::Prepare, AttemptOutcome::NetworkError);
    assert_eq!(c.consecutive_network_errors, 1);
    assert_eq!(c.consecutive_429, 2);
    let d = c.next_delay(RequestPhase::Prepare, AttemptOutcome::Code(0));
    assert_eq!(c.consecutive_429, 0);
    assert_eq!(c.consecutive_network_errors, 0);
    assert_eq!(c.last_interval_ms, d);
    assert!(c.stats_label().starts_with("策略: 开票, 当前间隔: "));
    assert!(c.stats_label().ends_with(&format!("{}ms, 连续429: 0", d)));
}

#[test]
fn waiting_steps() {
    assert_eq!(wait_step(true, 10_000), WaitStep::Stopped);
    assert_eq!(wait_step(false, 0), WaitStep::Reached);
    assert_eq!(wait_step(false, -5), WaitStep::Reached);
    assert_eq!(wait_step(false, 6_000), WaitStep::Sleep(1_000));
    assert_eq!(wait_step(false, 5_000), WaitStep::Sleep(100));
    assert_eq!(wait_step(false, 1_000), WaitStep::Sleep(10));
    assert_eq!(wait_step(false, 50), WaitStep::Sleep(1));
}

#[test]
fn offset_jumps_need_confirmation() {
    let d = offset_sync_step(100, 50, None);
    assert_eq!(d.action, OffsetSyncAction::Applied);
    assert_eq!(d.store, Some(100));
    let j = offset_sync_step(1_000, 50, None);
    assert_eq!(j.action, OffsetSyncAction::IgnoredOnce);
    assert_eq!(j.store, None);
    assert_eq!(j.pending, Some(1_000));
    let c = offset_sync_step(1_100, 50, j.pending);
    assert_eq!(c.action, OffsetSyncAction::AcceptedJump);
    assert_eq!(c.store, Some(1_100));
    assert_eq!(c.pending, None);
    let again = offset_sync_step(2_000, 50, Some(1_000));
    assert_eq!(again.action, OffsetSyncAction::IgnoredOnce);
    assert_eq!(again.pending, Some(2_000));
}

#[test]
fn reply_codes() {
    assert_eq!(prepare_failure(Some(0), Some(5)), None);
    assert_eq!(prepare_failure(Some(5), Some(0)), None);
    assert_eq!(prepare_failure(Some(412), Some(7)), Some(412));
    assert_eq!(prepare_failure(None, Some(7)), Some(7));
    assert_eq!(prepare_failure(None, None), Some(-1));
    assert_eq!(answer_code(None, Some(100048)), 100048);
    assert_eq!(answer_code(None, None), -1);
    assert_eq!(create_outcome(0), CreateOutcome::OrderExists);
    assert_eq!(create_outcome(100079), CreateOutcome::OrderExists);
    assert_eq!(create_outcome(100034), CreateOutcome::PriceChanged);
    assert_eq!(create_outcome(100051), CreateOutcome::TokenExpired);
    assert_eq!(create_outcome(412), CreateOutcome::Retry);
}

#[test]
fn attempt_budget() {
    assert_eq!(max_create_attempts(0), 60);
    assert_eq!(max_create_attempts(7), 7);
    assert!(should_log_attempt(1, 60));
    assert!(should_log_attempt(60, 60));
    assert!(should_log_attempt(20, 60));
    assert!(!should_log_attempt(21, 60));
    assert_eq!(consume_attempt(2, 1, false), (1, false));
    assert_eq!(consume_attempt(1, 1, false), (0, true));
    assert_eq!(consume_attempt(1, 1, true), (1, false));
    assert_eq!(consume_attempt(1, 0, false), (1, false));
    assert!(before_sale(Some(1)));
    assert!(!before_sale(Some(0)));
    assert!(!before_sale(None));
}

#[test]
fn ptoken_and_contact() {
    assert_eq!(strip_padding("ab=c=="), "abc");
    assert!(usable_contact_tel("13800000000"));
    assert!(!usable_contact_tel("138****0000"));
}

#[test]
fn restart_only_once_and_when_not_stopped() {
    assert!(restart_task(BuyTaskOutcome::RestartBeforeSale, true, false));
    assert!(!restart_task(BuyTaskOutcome::RestartBeforeSale, false, false));
    assert!(!restart_task(BuyTaskOutcome::RestartBeforeSale, true, true));
    assert!(!restart_task(BuyTaskOutcome::Finished, true, false));
}

#[test]
fn endpoints() {
    assert_eq!(
        prepare_url("123"),
        "https://show.bilibili.com/api/ticket/order/prepare?project_id=123"
    );
    assert_eq!(
        create_url("123", None),
        "https://show.bilibili.com/api/ticket/order/createV2?project_id=123"
    );
    assert_eq!(
        create_url("123", Some("pt")),
        "https://show.bilibili.com/api/ticket/order/createV2?project_id=123&ptoken=pt"
    );
    assert_eq!(
        pay_param_url("9"),
        "https://show.bilibili.com/api/ticket/order/getPayParam?order_id=9"
    );
}

#[test]
fn background_sync_freezes_before_start() {
    assert!(background_sync_frozen(2_000));
    assert!(background_sync_frozen(-5));
    assert!(!background_sync_frozen(2_001));
}

#[test]
fn opening_burst_lasts_twenty_seconds() {
    assert!(opening_burst_open(0));
    assert!(opening_burst_open(20_000));
    assert!(!opening_burst_open(20_001));
    let c = AdaptiveDelayController::new(ActiveStrategy::Opening, 100);
    assert!(c.in_opening_burst());
}

#[test]
fn create_delays_logged_when_long_or_after_412() {
    assert!(should_log_create_delay(true, AttemptOutcome::NetworkError, 10));
    assert!(should_log_create_delay(false, AttemptOutcome::Code(412), 10));
    assert!(should_log_create_delay(false, AttemptOutcome::Code(0), 5_000));
    assert!(!should_log_create_delay(false, AttemptOutcome::Code(100009), 4_999));
    assert!(!should_log_create_delay(false, AttemptOutcome::NetworkError, 300));
}
