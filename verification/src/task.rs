//! The course of a purchase task once the sale is open: rounds of one
//! prepare request followed by up to `max_attempts` create requests, until an
//! order exists, the user stops the task, or (in mode 1) the budget of rounds
//! is spent. The caller performs each step and reports what happened.
use vstd::prelude::*;
use crate::buy::{CreateOutcome, WaitStep, consume_attempt, consume_attempt_spec, max_create_attempts, wait_step, wait_step_spec};

verus! {

/// What the task does next.
#[derive(Debug, Clone, Copy, PartialEq, Eq, Structural)]
pub enum Step {
    /// Check for a stop request, then wait for the sale time.
    AwaitSale,
    /// Send a prepare request.
    Prepare,
    /// Send create request number `attempt` (from 1) of the current round.
    Create { attempt: u32 },
    /// The task is over.
    Done,
}

/// How a task ended, once it has.
#[derive(Debug, Clone, Copy, PartialEq, Eq, Structural)]
pub enum Ending {
    /// Still running.
    Running,
    /// An order was created, or one already existed.
    OrderPlaced,
    /// The user stopped the task.
    Stopped,
    /// The budget of rounds (mode 1) is spent.
    BudgetSpent,
}

/// What happened at the step the task was told to take.
#[derive(Debug, Clone, Copy, PartialEq, Eq, Structural)]
pub enum Event {
    /// The user asked the task to stop (also while it slept or waited).
    Stopped,
    /// The sale time has come: preparing is allowed.
    SaleOpen,
    /// The prepare request did not reach the server.
    PrepareNetworkError,
    /// The server refused to prepare; `before_sale` tells whether the sale
    /// time was still ahead.
    PrepareRefused { before_sale: bool },
    /// The order was prepared.
    Prepared,
    /// The server answered a create request.
    CreateAnswered(CreateOutcome),
    /// The create request did not reach the server.
    CreateNetworkError,
}

/// What one look of the wait for the sale time leads to.
#[derive(Debug, Clone, Copy, PartialEq, Eq, Structural)]
pub enum SaleWait {
    /// The wait is over: report this event to the task.
    Report(Event),
    /// Sleep this many milliseconds, then look again.
    Sleep(u64),
}

/// One look of the wait for the sale time: a stop request ends the task; a
/// task without a schedule (`remaining_ms` is `None`) may prepare at once; a
/// scheduled one may prepare once no time remains before the sale, and
/// otherwise sleeps as `wait_step` says.
pub open spec fn sale_wait_spec(stopped: bool, remaining_ms: Option<i64>) -> SaleWait {
    if stopped {
        SaleWait::Report(Event::Stopped)
    } else {
        match remaining_ms {
            None => SaleWait::Report(Event::SaleOpen),
            Some(r) => match wait_step_spec(false, r) {
                WaitStep::Sleep(ms) => SaleWait::Sleep(ms),
                _ => SaleWait::Report(Event::SaleOpen),
            },
        }
    }
}

/// Looks once at the wait for the sale time (see `sale_wait_spec`).
pub fn sale_wait_step(stopped: bool, remaining_ms: Option<i64>) -> (r: SaleWait)
    ensures
        r == sale_wait_spec(stopped, remaining_ms),
{
    if stopped {
        return SaleWait::Report(Event::Stopped);
    }
    match remaining_ms {
        None => SaleWait::Report(Event::SaleOpen),
        Some(rem) => match wait_step(false, rem) {
            WaitStep::Sleep(ms) => SaleWait::Sleep(ms),
            _ => SaleWait::Report(Event::SaleOpen),
        },
    }
}

/// The state of a purchase task.
#[derive(Debug, Clone, Copy, PartialEq, Eq, Structural)]
pub struct PurchaseLoop {
    /// 1 counts failed rounds against the budget; any other mode retries without limit.
    pub mode: u32,
    /// Create requests per round.
    pub max_attempts: u32,
    /// Rounds left in the budget.
    pub left_time: i32,
    pub step: Step,
    pub ending: Ending,
}

/// The task after a round that ended without an order: the budget is charged
/// (mode 1, after the sale started) and the task ends when it is spent.
pub open spec fn round_failed_spec(s: PurchaseLoop, before_sale: bool) -> PurchaseLoop {
    let (left, spent) = consume_attempt_spec(s.left_time, s.mode, before_sale);
    PurchaseLoop {
        left_time: left,
        step: if spent { Step::Done } else { Step::AwaitSale },
        ending: if spent { Ending::BudgetSpent } else { Ending::Running },
        ..s
    }
}

/// The next state of a task after `e` happened at its current step.
pub open spec fn next_spec(s: PurchaseLoop, e: Event) -> PurchaseLoop {
    match s.step {
        Step::Done => s,
        Step::AwaitSale => match e {
            Event::Stopped => PurchaseLoop { step: Step::Done, ending: Ending::Stopped, ..s },
            Event::SaleOpen => PurchaseLoop { step: Step::Prepare, ..s },
            _ => s,
        },
        Step::Prepare => match e {
            Event::Stopped => PurchaseLoop { step: Step::Done, ending: Ending::Stopped, ..s },
            Event::PrepareNetworkError => PurchaseLoop { step: Step::AwaitSale, ..s },
            Event::PrepareRefused { before_sale } => round_failed_spec(s, before_sale),
            Event::Prepared => PurchaseLoop { step: Step::Create { attempt: 1 }, ..s },
            _ => s,
        },
        Step::Create { attempt } => match e {
            Event::Stopped => {
                let r = round_failed_spec(s, false);
                PurchaseLoop { step: Step::Done, ending: if r.ending == Ending::BudgetSpent {
                    Ending::BudgetSpent
                } else {
                    Ending::Stopped
                }, ..r }
            },
            Event::CreateAnswered(CreateOutcome::OrderExists) => PurchaseLoop {
                step: Step::Done,
                ending: Ending::OrderPlaced,
                ..s
            },
            Event::CreateAnswered(CreateOutcome::TokenExpired) => round_failed_spec(s, false),
            Event::CreateAnswered(_) | Event::CreateNetworkError => if attempt < s.max_attempts {
                PurchaseLoop { step: Step::Create { attempt: (attempt + 1) as u32 }, ..s }
            } else {
                round_failed_spec(s, false)
            },
            _ => s,
        },
    }
}

/// While the task runs, its budget stays above `i32::MIN`, so that charging
/// it cannot overflow; the step and the ending agree.
pub open spec fn loop_ok(s: PurchaseLoop) -> bool {
    &&& (s.step != Step::Done && s.mode == 1 ==> s.left_time > i32::MIN)
    &&& s.max_attempts > 0
    &&& (s.step matches Step::Create { attempt } ==> 1 <= attempt <= s.max_attempts)
    &&& (s.step == Step::Done <==> s.ending != Ending::Running)
}

impl PurchaseLoop {
    /// A task about to prepare its first round, with a budget of
    /// `total_attempts` rounds (as `i32`, wrapping) and `total_attempts`
    /// create requests per round (60 when 0).
    pub fn new(mode: u32, total_attempts: u32) -> (r: Self)
        requires
            mode == 1 ==> total_attempts as i32 > i32::MIN,
        ensures
            r.mode == mode,
            r.left_time == total_attempts as i32,
            r.max_attempts == if total_attempts > 0 { total_attempts } else { 60 },
            r.step == Step::AwaitSale,
            r.ending == Ending::Running,
            loop_ok(r),
    {
        PurchaseLoop {
            mode,
            max_attempts: max_create_attempts(total_attempts),
            left_time: total_attempts as i32,
            step: Step::AwaitSale,
            ending: Ending::Running,
        }
    }

    fn round_failed(&mut self, before_sale: bool)
        requires
            loop_ok(*old(self)),
            old(self).step != Step::Done,
        ensures
            *final(self) == round_failed_spec(*old(self), before_sale),
    {
        let (left, spent) = consume_attempt(self.left_time, self.mode, before_sale);
        self.left_time = left;
        if spent {
            self.step = Step::Done;
            self.ending = Ending::BudgetSpent;
        } else {
            self.step = Step::AwaitSale;
            self.ending = Ending::Running;
        }
    }

    /// One look of the wait for the sale time, for a task at `AwaitSale`: the
    /// task moves on with the event the look reports (`None` is returned), or
    /// it stays where it is and `Some(ms)` says how long to sleep before the
    /// next look.
    pub fn await_sale(&mut self, stopped: bool, remaining_ms: Option<i64>) -> (r: Option<u64>)
        requires
            loop_ok(*old(self)),
            old(self).step == Step::AwaitSale,
        ensures
            match sale_wait_spec(stopped, remaining_ms) {
                SaleWait::Report(e) => r is None && *final(self) == next_spec(*old(self), e),
                SaleWait::Sleep(ms) => r == Some(ms) && *final(self) == *old(self),
            },
            loop_ok(*final(self)),
    {
        match sale_wait_step(stopped, remaining_ms) {
            SaleWait::Report(e) => {
                self.advance(e);
                None
            },
            SaleWait::Sleep(ms) => Some(ms),
        }
    }

    /// Moves the task on after `e` happened at its current step (see `next_spec`).
    pub fn advance(&mut self, e: Event)
        requires
            loop_ok(*old(self)),
        ensures
            *final(self) == next_spec(*old(self), e),
            loop_ok(*final(self)),
    {
        match self.step {
            Step::Done => {},
            Step::AwaitSale => match e {
                Event::Stopped => {
                    self.step = Step::Done;
                    self.ending = Ending::Stopped;
                },
                Event::SaleOpen => {
                    self.step = Step::Prepare;
                },
                _ => {},
            },
            Step::Prepare => match e {
                Event::Stopped => {
                    self.step = Step::Done;
                    self.ending = Ending::Stopped;
                },
                Event::PrepareNetworkError => {
                    self.step = Step::AwaitSale;
                },
                Event::PrepareRefused { before_sale } => self.round_failed(before_sale),
                Event::Prepared => {
                    self.step = Step::Create { attempt: 1 };
                },
                _ => {},
            },
            Step::Create { attempt } => match e {
                Event::Stopped => {
                    self.round_failed(false);
                    if self.ending != Ending::BudgetSpent {
                        self.ending = Ending::Stopped;
                    }
                    self.step = Step::Done;
                },
                Event::CreateAnswered(CreateOutcome::OrderExists) => {
                    self.step = Step::Done;
                    self.ending = Ending::OrderPlaced;
                },
                Event::CreateAnswered(CreateOutcome::TokenExpired) => self.round_failed(false),
                Event::CreateAnswered(_) | Event::CreateNetworkError => {
                    if attempt < self.max_attempts {
                        self.step = Step::Create { attempt: attempt + 1 };
                    } else {
                        self.round_failed(false);
                    }
                },
                _ => {},
            },
        }
    }
}

/// Whether the task waits out the pacing delay before reporting `e`: after a
/// create request that failed to reach the server, a price change, or any
/// other answer that asks to retry. An existing order ends the task at once and
/// an expired token re-prepares at once.
pub open spec fn paced_spec(e: Event) -> bool {
    e == Event::CreateNetworkError || e == Event::CreateAnswered(CreateOutcome::PriceChanged) || e
        == Event::CreateAnswered(CreateOutcome::Retry)
}

pub fn paced(e: Event) -> (b: bool)
    ensures
        b == paced_spec(e),
{
    match e {
        Event::CreateNetworkError => true,
        Event::CreateAnswered(CreateOutcome::PriceChanged) => true,
        Event::CreateAnswered(CreateOutcome::Retry) => true,
        _ => false,
    }
}

/// A round of create requests ended without an order: the task was creating
/// and is now back at the wait for the sale time, or done for a reason other than an order.
pub fn round_ended_without_order(before: Step, after: &PurchaseLoop) -> (b: bool)
    ensures
        b == ((before matches Step::Create { .. }) && after.ending != Ending::OrderPlaced && (
        after.step == Step::AwaitSale || after.step == Step::Done)),
{
    match before {
        Step::Create { .. } => after.ending != Ending::OrderPlaced && (after.step == Step::AwaitSale
            || after.step == Step::Done),
        _ => false,
    }
}

// ---------------------------------------------------------------------------
// Laws of the task's course.
// ---------------------------------------------------------------------------

/// A finished task stays finished, whatever is reported afterwards.
pub proof fn law_done_is_final(s: PurchaseLoop, e: Event)
    requires
        s.step == Step::Done,
    ensures
        next_spec(s, e) == s,
{
}

/// A stop request ends a running task at once.
pub proof fn law_stop_ends_task(s: PurchaseLoop)
    requires
        loop_ok(s),
        s.step != Step::Done,
    ensures
        next_spec(s, Event::Stopped).step == Step::Done,
        next_spec(s, Event::Stopped).ending != Ending::Running,
        next_spec(s, Event::Stopped).ending != Ending::OrderPlaced,
{
}

/// An existing order ends the task as a success, at any create attempt.
pub proof fn law_order_ends_task(s: PurchaseLoop, attempt: u32)
    requires
        s.step == (Step::Create { attempt }),
    ensures
        next_spec(s, Event::CreateAnswered(CreateOutcome::OrderExists)).step == Step::Done,
        next_spec(s, Event::CreateAnswered(CreateOutcome::OrderExists)).ending == Ending::OrderPlaced,
{
}

/// Outside mode 1 no failure ends a task: only an order or a stop request do.
pub proof fn law_unlimited_mode_keeps_trying(s: PurchaseLoop, e: Event)
    requires
        loop_ok(s),
        s.mode != 1,
        s.step != Step::Done,
        e != Event::Stopped,
        e != Event::CreateAnswered(CreateOutcome::OrderExists),
    ensures
        next_spec(s, e).step != Step::Done,
        next_spec(s, e).left_time == s.left_time,
{
}

/// A round makes at most `max_attempts` create requests: after the last one
/// fails, the next step is the wait that starts a new round (or the end of the task).
pub proof fn law_round_has_max_attempts(s: PurchaseLoop, e: Event)
    requires
        loop_ok(s),
        s.step == (Step::Create { attempt: s.max_attempts }),
        e == Event::CreateNetworkError || e == Event::CreateAnswered(CreateOutcome::Retry) || e
            == Event::CreateAnswered(CreateOutcome::PriceChanged),
    ensures
        next_spec(s, e).step == Step::AwaitSale || next_spec(s, e).step == Step::Done,
{
}

/// Every prepare request is preceded by the wait for the sale time: the task comes to
/// prepare only from that wait, once the sale time came.
pub proof fn law_prepare_follows_sale_wait(s: PurchaseLoop, e: Event)
    requires
        s.step != Step::Prepare,
        next_spec(s, e).step == Step::Prepare,
    ensures
        s.step == Step::AwaitSale,
        e == Event::SaleOpen,
{
}

/// No prepare request goes out before the sale time: a look of the wait for
/// the sale time moves a task to prepare only when the task was waiting, no
/// stop was requested, and the task has no schedule or no time remains
/// before its sale.
pub proof fn law_prepare_never_before_sale(s: PurchaseLoop, stopped: bool, remaining_ms: Option<i64>)
    requires
        s.step != Step::Prepare,
        sale_wait_spec(stopped, remaining_ms) matches SaleWait::Report(e) && next_spec(s, e).step
            == Step::Prepare,
    ensures
        s.step == Step::AwaitSale,
        !stopped,
        remaining_ms matches Some(r) ==> r <= 0,
{
}

/// A new round starts at the wait for the sale time, after any failed round.
pub proof fn law_rounds_start_at_sale_wait(s: PurchaseLoop, before_sale: bool)
    requires
        loop_ok(s),
        s.step != Step::Done,
    ensures
        round_failed_spec(s, before_sale).step == Step::AwaitSale || round_failed_spec(
            s,
            before_sale,
        ).step == Step::Done,
{
}

/// An expired token ends the round and sends the task back to the wait for the sale time,
/// charging the round.
pub proof fn law_token_expiry_reprepares(s: PurchaseLoop, attempt: u32)
    requires
        loop_ok(s),
        s.step == (Step::Create { attempt }),
    ensures
        next_spec(s, Event::CreateAnswered(CreateOutcome::TokenExpired)) == round_failed_spec(
            s,
            false,
        ),
{
}

} // verus!
