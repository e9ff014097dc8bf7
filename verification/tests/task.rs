use bili_ticker_buy::buy::CreateOutcome;
use bili_ticker_buy::task::{paced, round_ended_without_order, sale_wait_step, Ending, Event, PurchaseLoop, SaleWait, Step};

#[test]
fn a_round_waits_for_the_sale_then_prepares_then_creates() {
    let mut t = PurchaseLoop::new(0, 2);
    assert_eq!(t.step, Step::AwaitSale);
    assert_eq!(t.max_attempts, 2);
    t.advance(Event::Prepared);
    assert_eq!(t.step, Step::AwaitSale);
    t.advance(Event::SaleOpen);
    assert_eq!(t.step, Step::Prepare);
    t.advance(Event::PrepareNetworkError);
    assert_eq!(t.step, Step::AwaitSale);
    t.advance(Event::SaleOpen);
    t.advance(Event::Prepared);
    assert_eq!(t.step, Step::Create { attempt: 1 });
    t.advance(Event::CreateAnswered(CreateOutcome::Retry));
    assert_eq!(t.step, Step::Create { attempt: 2 });
    t.advance(Event::CreateNetworkError);
    assert_eq!(t.step, Step::AwaitSale);
    assert_eq!(t.ending, Ending::Running);
    assert_eq!(t.left_time, 2);
}

#[test]
fn zero_attempts_mean_sixty_per_round() {
    let t = PurchaseLoop::new(1, 0);
    assert_eq!(t.max_attempts, 60);
    assert_eq!(t.left_time, 0);
}

#[test]
fn huge_budget_outside_mode_one() {
    let t = PurchaseLoop::new(0, 1 << 31);
    assert_eq!(t.left_time, i32::MIN);
    assert_eq!(t.max_attempts, 1 << 31);
}

#[test]
fn an_order_ends_the_task() {
    let mut t = PurchaseLoop::new(1, 3);
    t.advance(Event::SaleOpen);
    t.advance(Event::Prepared);
    t.advance(Event::CreateAnswered(CreateOutcome::PriceChanged));
    t.advance(Event::CreateAnswered(CreateOutcome::OrderExists));
    assert_eq!(t.step, Step::Done);
    assert_eq!(t.ending, Ending::OrderPlaced);
    t.advance(Event::SaleOpen);
    assert_eq!(t.step, Step::Done);
}

#[test]
fn mode_one_spends_its_budget() {
    let mut t = PurchaseLoop::new(1, 2);
    t.advance(Event::SaleOpen);
    t.advance(Event::PrepareRefused { before_sale: true });
    assert_eq!(t.left_time, 2);
    assert_eq!(t.step, Step::AwaitSale);
    t.advance(Event::SaleOpen);
    t.advance(Event::PrepareRefused { before_sale: false });
    assert_eq!(t.left_time, 1);
    assert_eq!(t.step, Step::AwaitSale);
    t.advance(Event::SaleOpen);
    t.advance(Event::Prepared);
    let before = t.step;
    t.advance(Event::CreateAnswered(CreateOutcome::TokenExpired));
    assert_eq!(t.left_time, 0);
    assert_eq!(t.step, Step::Done);
    assert_eq!(t.ending, Ending::BudgetSpent);
    assert!(round_ended_without_order(before, &t));
}

#[test]
fn other_modes_retry_without_limit() {
    let mut t = PurchaseLoop::new(0, 1);
    for _ in 0..5 {
        t.advance(Event::SaleOpen);
        t.advance(Event::PrepareRefused { before_sale: false });
        t.advance(Event::SaleOpen);
        t.advance(Event::Prepared);
        t.advance(Event::CreateAnswered(CreateOutcome::Retry));
    }
    assert_eq!(t.step, Step::AwaitSale);
    assert_eq!(t.left_time, 1);
}

#[test]
fn stopping_ends_the_task() {
    let mut t = PurchaseLoop::new(1, 5);
    t.advance(Event::Stopped);
    assert_eq!(t.ending, Ending::Stopped);
    assert_eq!(t.left_time, 5);

    let mut p = PurchaseLoop::new(1, 5);
    p.advance(Event::SaleOpen);
    p.advance(Event::Stopped);
    assert_eq!(p.ending, Ending::Stopped);
    assert_eq!(p.left_time, 5);

    let mut c = PurchaseLoop::new(1, 5);
    c.advance(Event::SaleOpen);
    c.advance(Event::Prepared);
    c.advance(Event::Stopped);
    assert_eq!(c.step, Step::Done);
    assert_eq!(c.ending, Ending::Stopped);
    assert_eq!(c.left_time, 4);

    let mut last = PurchaseLoop::new(1, 1);
    last.advance(Event::SaleOpen);
    last.advance(Event::Prepared);
    last.advance(Event::Stopped);
    assert_eq!(last.ending, Ending::BudgetSpent);
}

#[test]
fn which_create_answers_are_paced() {
    assert!(paced(Event::CreateNetworkError));
    assert!(paced(Event::CreateAnswered(CreateOutcome::Retry)));
    assert!(paced(Event::CreateAnswered(CreateOutcome::PriceChanged)));
    assert!(!paced(Event::CreateAnswered(CreateOutcome::OrderExists)));
    assert!(!paced(Event::CreateAnswered(CreateOutcome::TokenExpired)));
    assert!(!paced(Event::Prepared));
}

#[test]
fn rounds_without_an_order() {
    let mut t = PurchaseLoop::new(0, 1);
    t.advance(Event::SaleOpen);
    let before = t.step;
    t.advance(Event::Prepared);
    assert!(!round_ended_without_order(before, &t));
    let before = t.step;
    t.advance(Event::CreateAnswered(CreateOutcome::OrderExists));
    assert!(!round_ended_without_order(before, &t));
}

#[test]
fn the_sale_wait_opens_only_when_no_time_remains() {
    assert_eq!(sale_wait_step(true, Some(-5)), SaleWait::Report(Event::Stopped));
    assert_eq!(sale_wait_step(false, None), SaleWait::Report(Event::SaleOpen));
    assert_eq!(sale_wait_step(false, Some(0)), SaleWait::Report(Event::SaleOpen));
    assert_eq!(sale_wait_step(false, Some(-300)), SaleWait::Report(Event::SaleOpen));
    assert_eq!(sale_wait_step(false, Some(1)), SaleWait::Sleep(1));
    assert_eq!(sale_wait_step(false, Some(60)), SaleWait::Sleep(10));
    assert_eq!(sale_wait_step(false, Some(2_000)), SaleWait::Sleep(100));
    assert_eq!(sale_wait_step(false, Some(60_000)), SaleWait::Sleep(1000));
}

#[test]
fn await_sale_moves_on_only_when_the_sale_opens() {
    let mut t = PurchaseLoop::new(0, 3);
    assert_eq!(t.await_sale(false, Some(2_000)), Some(100));
    assert_eq!(t.step, Step::AwaitSale);
    assert_eq!(t.await_sale(false, Some(0)), None);
    assert_eq!(t.step, Step::Prepare);

    let mut u = PurchaseLoop::new(0, 3);
    assert_eq!(u.await_sale(true, Some(2_000)), None);
    assert_eq!(u.step, Step::Done);
    assert_eq!(u.ending, Ending::Stopped);
}
