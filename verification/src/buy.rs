//! Decisions of a purchase task: strategy choice, retry pacing, the sale-time
//! gate, background clock-offset updates and the bookkeeping of attempts.
use vstd::prelude::*;
use crate::text::{abs_int, chars_of, concat_str, contains_char, decimal_spec, string_from_chars, trim_chars, trim_spec, u64_to_chars};

verus! {

pub const BEIJING_OFFSET_SECONDS: i32 = 8 * 60 * 60;

pub const TIME_SYNC_FREEZE_BEFORE_START_MS: i64 = 2000;

pub const TIME_SYNC_OFFSET_JUMP_WARN_MS: i64 = 300;

pub const PRE_SALE_RESTART_BEFORE_START_MS: i64 = 60_000;

pub const OPENING_BURST_WINDOW_MS: u128 = 20_000;

pub const OPENING_MIN_INTERVAL_MS: u64 = 250;

pub const RECHECK_412_RESET_MS: u128 = 30 * 60 * 1000;

pub const RECHECK_412_ESCALATE_MS: u128 = 10 * 60 * 1000;

pub const FIRST_412_COOLDOWN_MS: u64 = 60_000;

pub const REPEATED_412_COOLDOWN_MS: u64 = 300_000;

/// How a purchase task ended.
#[derive(Debug, Clone, Copy, PartialEq, Eq, Structural)]
pub enum BuyTaskOutcome {
    Finished,
    RestartBeforeSale,
}

/// The message shown for a server error code.
pub open spec fn error_message_spec(errno: i64) -> Seq<char> {
    if errno == 0 {
        "成功"@
    } else if errno == 3 {
        "抢票CD中"@
    } else if errno == 100001 {
        "无票"@
    } else if errno == 100003 {
        "验证码过期"@
    } else if errno == 429 {
        "请求异常 429"@
    } else if errno == 412 {
        "请求异常 412"@
    } else if errno == 219 || errno == 221 {
        "购票暂不可用"@
    } else if errno == 100009 {
        "库存不足,暂无余票"@
    } else if errno == 100016 {
        "项目不可售"@
    } else if errno == 100017 {
        "票种不可售"@
    } else if errno == 100034 {
        "票价错误"@
    } else if errno == 100039 {
        "活动收摊啦,下次要快点哦"@
    } else if errno == 100041 {
        "对未发售的票进行抢票"@
    } else if errno == 100048 {
        "已经下单，有尚未完成订单"@
    } else if errno == 100051 {
        "订单准备过期，重新验证"@
    } else if errno == 900001 || errno == 900002 {
        "当前拥挤，请稍后再试"@
    } else {
        "未知错误码"@
    }
}

/// Maps a server error code to a human-readable message.
pub fn get_error_message(errno: i64) -> (r: &'static str)
    ensures
        r@ == error_message_spec(errno),
{
    match errno {
        0 => "成功",
        3 => "抢票CD中",
        100001 => "无票",
        100003 => "验证码过期",
        429 => "请求异常 429",
        412 => "请求异常 412",
        219 => "购票暂不可用",
        221 => "购票暂不可用",
        100009 => "库存不足,暂无余票",
        100016 => "项目不可售",
        100017 => "票种不可售",
        100034 => "票价错误",
        100039 => "活动收摊啦,下次要快点哦",
        100041 => "对未发售的票进行抢票",
        100048 => "已经下单，有尚未完成订单",
        100051 => "订单准备过期，重新验证",
        900001 => "当前拥挤，请稍后再试",
        900002 => "当前拥挤，请稍后再试",
        _ => "未知错误码",
    }
}

/// The pacing strategy a user asks for.
#[derive(Debug, Clone, Copy, PartialEq, Eq, Structural)]
pub enum StrategyMode {
    Auto,
    Opening,
    Reflow,
}

/// `c` with ASCII upper-case letters mapped to lower case.
pub open spec fn ascii_lower(c: char) -> char {
    if 'A' <= c <= 'Z' {
        ((c as u32) + 32) as char
    } else {
        c
    }
}

/// `s` lower-cased equals the lower-case ASCII word `w`. For words without a
/// `k`, this is exactly `s.to_lowercase() == w`: the only non-ASCII character
/// whose lower case is a single ASCII letter is the Kelvin sign.
pub open spec fn lower_equals(s: Seq<char>, w: Seq<char>) -> bool {
    s.len() == w.len() && forall|i: int| 0 <= i < s.len() ==> ascii_lower(#[trigger] s[i]) == w[i]
}

pub open spec fn strategy_from_text(raw: Seq<char>) -> StrategyMode {
    let t = trim_spec(raw);
    if lower_equals(t, "opening"@) || lower_equals(t, "sale"@) || lower_equals(t, "start"@) {
        StrategyMode::Opening
    } else if lower_equals(t, "reflow"@) || lower_equals(t, "return"@) || lower_equals(
        t,
        "refund"@,
    ) {
        StrategyMode::Reflow
    } else {
        StrategyMode::Auto
    }
}

pub open spec fn strategy_from_option_spec(value: Option<Seq<char>>) -> StrategyMode {
    match value {
        Some(s) => strategy_from_text(s),
        None => StrategyMode::Auto,
    }
}

fn to_ascii_lower(c: char) -> (r: char)
    ensures
        r == ascii_lower(c),
{
    if 'A' <= c && c <= 'Z' {
        let u = c as u32 + 32;
        assert(u < 0xD800);
        char_from_u32(u)
    } else {
        c
    }
}

/// Calls `char::from_u32` on a value below the surrogate range, where std
/// documents that it gives the character of that code; the contract claims that.
#[verifier::external_body]
fn char_from_u32(u: u32) -> (c: char)
    requires
        u < 0xD800,
    ensures
        c as u32 == u,
{
    char::from_u32(u).unwrap()
}

fn lower_eq_word(s: &Vec<char>, w: &str) -> (b: bool)
    ensures
        b == lower_equals(s@, w@),
{
    let wc = chars_of(w);
    if s.len() != wc.len() {
        return false;
    }
    let mut i: usize = 0;
    while i < s.len()
        invariant
            i <= s.len() == wc@.len(),
            wc@ == w@,
            forall|j: int| 0 <= j < i ==> ascii_lower(#[trigger] s@[j]) == wc@[j],
        decreases s.len() - i,
    {
        if to_ascii_lower(s[i]) != wc[i] {
            return false;
        }
        i = i + 1;
    }
    true
}

impl StrategyMode {
    /// Reads a strategy name: `opening`/`sale`/`start` and `reflow`/`return`/`refund`,
    /// ignoring case and surrounding whitespace; anything else, or nothing, is `Auto`.
    pub fn from_option(value: Option<&str>) -> (r: Self)
        ensures
            r == strategy_from_option_spec(
                match value {
                    Some(s) => Some(s@),
                    None => None,
                },
            ),
    {
        match value {
            None => StrategyMode::Auto,
            Some(s) => {
                let raw = chars_of(s);
                let t = trim_chars(&raw);
                if lower_eq_word(&t, "opening") || lower_eq_word(&t, "sale") || lower_eq_word(
                    &t,
                    "start",
                ) {
                    StrategyMode::Opening
                } else if lower_eq_word(&t, "reflow") || lower_eq_word(&t, "return")
                    || lower_eq_word(&t, "refund") {
                    StrategyMode::Reflow
                } else {
                    StrategyMode::Auto
                }
            },
        }
    }

    /// The name shown for this mode.
    pub fn label(self) -> (r: &'static str)
        ensures
            r@ == (match self {
                StrategyMode::Auto => "自动"@,
                StrategyMode::Opening => "开票"@,
                StrategyMode::Reflow => "回流"@,
            }),
    {
        match self {
            StrategyMode::Auto => "自动",
            StrategyMode::Opening => "开票",
            StrategyMode::Reflow => "回流",
        }
    }
}

/// The strategy actually in force.
#[derive(Debug, Clone, Copy, PartialEq, Eq, Structural)]
pub enum ActiveStrategy {
    Opening,
    Reflow,
}

impl ActiveStrategy {
    pub open spec fn label_spec(self) -> Seq<char> {
        match self {
            ActiveStrategy::Opening => "开票"@,
            ActiveStrategy::Reflow => "回流"@,
        }
    }

    /// The name shown for this strategy.
    pub fn label(self) -> (r: &'static str)
        ensures
            r@ == self.label_spec(),
    {
        match self {
            ActiveStrategy::Opening => "开票",
            ActiveStrategy::Reflow => "回流",
        }
    }
}

/// Which request of a purchase attempt a result belongs to.
#[derive(Debug, Clone, Copy, PartialEq, Eq, Structural)]
pub enum RequestPhase {
    Prepare,
    Create,
}

/// What one request came back with.
#[derive(Debug, Clone, Copy, PartialEq, Eq, Structural)]
pub enum AttemptOutcome {
    Code(i64),
    NetworkError,
}

/// Whether an order may be prepared yet.
#[derive(Debug, Clone, Copy, PartialEq, Eq, Structural)]
pub struct PrepareGateDecision {
    pub allowed: bool,
    pub remaining_ms: i64,
}

/// Preparing is allowed once the sale time is reached.
pub fn prepare_gate_decision(remaining_ms: i64) -> (d: PrepareGateDecision)
    ensures
        d.allowed == (remaining_ms <= 0),
        d.remaining_ms == remaining_ms,
{
    PrepareGateDecision { allowed: remaining_ms <= 0, remaining_ms }
}

pub open spec fn resolve_active_strategy_spec(
    requested: StrategyMode,
    scheduled_was_future: bool,
) -> ActiveStrategy {
    match requested {
        StrategyMode::Opening => ActiveStrategy::Opening,
        StrategyMode::Reflow => ActiveStrategy::Reflow,
        StrategyMode::Auto => if scheduled_was_future {
            ActiveStrategy::Opening
        } else {
            ActiveStrategy::Reflow
        },
    }
}

/// An explicit request wins; `Auto` means opening pacing when the task waited
/// for a future sale time, and reflow pacing otherwise.
pub fn resolve_active_strategy(requested: StrategyMode, scheduled_was_future: bool) -> (r:
    ActiveStrategy)
    ensures
        r == resolve_active_strategy_spec(requested, scheduled_was_future),
{
    match requested {
        StrategyMode::Opening => ActiveStrategy::Opening,
        StrategyMode::Reflow => ActiveStrategy::Reflow,
        StrategyMode::Auto => {
            if scheduled_was_future {
                ActiveStrategy::Opening
            } else {
                ActiveStrategy::Reflow
            }
        },
    }
}

/// `value.max(min).min(max)`.
pub open spec fn clamp_spec(value: int, min: int, max: int) -> int {
    let v = if value < min { min } else { value };
    if v < max { v } else { max }
}

/// Raises `value` to `min`, then lowers the result to `max`.
pub fn clamp_interval(value: u64, min: u64, max: u64) -> (r: u64)
    ensures
        r == clamp_spec(value as int, min as int, max as int),
{
    let v = if value < min { min } else { value };
    if v < max { v } else { max }
}

pub open spec fn sat_add(a: int, b: int) -> int {
    if a + b > u64::MAX { u64::MAX as int } else { a + b }
}

/// `base_ms` plus a jitter of `random % 81`, saturating.
pub open spec fn jitter_spec(base_ms: int, random: int) -> int {
    sat_add(base_ms, random % 81)
}

/// Calls `rand::random::<u64>()`. Nothing is claimed of the value.
#[verifier::external_body]
pub(crate) fn random_u64() -> u64 {
    rand::random::<u64>()
}

/// Adds a jitter of 0 to 80 ms, taken from `random`, to `base_ms`.
pub fn jitter_with(base_ms: u64, random: u64) -> (r: u64)
    ensures
        r == jitter_spec(base_ms as int, random as int),
{
    base_ms.saturating_add(random % 81)
}

/// Adds a random jitter of 0 to 80 ms to `base_ms`.
pub fn jittered_interval(base_ms: u64) -> (r: u64)
    ensures
        exists|j: int| 0 <= j <= 80 && r == sat_add(base_ms as int, j),
{
    let random = random_u64();
    jitter_with(base_ms, random)
}

pub open spec fn reflow_base_spec(base_interval_ms: int, hour: int) -> int {
    if 8 <= hour < 24 {
        clamp_spec(base_interval_ms, 250, 1_500)
    } else {
        clamp_spec(if base_interval_ms < 1_500 { 1_500 } else { base_interval_ms }, 1_500, 5_000)
    }
}

/// The reflow base interval for a given Beijing hour: 250..1500 ms in the
/// daytime (08:00 to midnight), 1500..5000 ms at night.
pub fn reflow_base_for_hour(base_interval_ms: u64, hour: u32) -> (r: u64)
    ensures
        r == reflow_base_spec(base_interval_ms as int, hour as int),
{
    if 8 <= hour && hour < 24 {
        clamp_interval(base_interval_ms, 250, 1_500)
    } else {
        let b = if base_interval_ms < 1_500 { 1_500 } else { base_interval_ms };
        clamp_interval(b, 1_500, 5_000)
    }
}

/// The reflow base interval for the current Beijing hour.
pub fn daytime_reflow_base_interval(base_interval_ms: u64) -> (r: u64)
    ensures
        exists|h: int| 0 <= h < 24 && r == reflow_base_spec(base_interval_ms as int, h),
{
    let now = crate::clock::beijing_now();
    let h = now.hour();
    reflow_base_for_hour(base_interval_ms, h)
}

/// How long to sleep so that `interval_ms` have passed since a request started
/// `elapsed_ms` ago; nothing when the interval has already passed.
pub fn precise_interval_sleep_duration(elapsed_ms: u64, interval_ms: u64) -> (r: Option<u64>)
    ensures
        elapsed_ms < interval_ms ==> r == Some((interval_ms - elapsed_ms) as u64),
        elapsed_ms >= interval_ms ==> r is None,
{
    if elapsed_ms < interval_ms {
        Some(interval_ms - elapsed_ms)
    } else {
        None
    }
}

/// The cooldown after a 412 answer, given how long ago the previous 412 was:
/// five minutes after one within ten minutes, one minute otherwise.
pub open spec fn cooldown_412_spec(since_last_412_ms: Option<u128>) -> u64 {
    match since_last_412_ms {
        Some(d) => if d <= RECHECK_412_ESCALATE_MS {
            REPEATED_412_COOLDOWN_MS
        } else {
            FIRST_412_COOLDOWN_MS
        },
        None => FIRST_412_COOLDOWN_MS,
    }
}

pub fn cooldown_after_412(since_last_412_ms: Option<u128>) -> (r: u64)
    ensures
        r == cooldown_412_spec(since_last_412_ms),
{
    match since_last_412_ms {
        Some(d) => {
            if d <= RECHECK_412_ESCALATE_MS {
                REPEATED_412_COOLDOWN_MS
            } else if d <= RECHECK_412_RESET_MS {
                FIRST_412_COOLDOWN_MS
            } else {
                FIRST_412_COOLDOWN_MS
            }
        },
        None => FIRST_412_COOLDOWN_MS,
    }
}

/// The delay of opening pacing after `outcome`, for a controller with the given
/// base interval and failure counters; `in_burst` tells whether the opening burst
/// window is still open and `random` feeds the jitter.
pub open spec fn opening_delay_spec(
    base: int,
    consecutive_429: int,
    consecutive_network_errors: int,
    outcome: AttemptOutcome,
    in_burst: bool,
    random: int,
) -> int {
    let steady = if in_burst {
        clamp_spec(base, OPENING_MIN_INTERVAL_MS as int, 1_000)
    } else {
        clamp_spec(if base < 1_000 { 1_000 } else { base }, 1_000, 3_000)
    };
    match outcome {
        AttemptOutcome::Code(c) => if c == 900001 || c == 900002 {
            1_000
        } else if c == 219 || c == 221 {
            5_000
        } else if c == 100051 {
            0
        } else if c == 429 {
            let extra = (if consecutive_429 >= 1 { consecutive_429 - 1 } else { 0 }) * 100;
            jitter_spec(
                clamp_spec(sat_add(base, extra), OPENING_MIN_INTERVAL_MS as int, 2_000),
                random,
            )
        } else {
            steady
        },
        AttemptOutcome::NetworkError => {
            let extra = consecutive_network_errors * 300;
            clamp_spec(sat_add(base, extra), 500, 5_000)
        },
    }
}

/// The delay of reflow pacing after `outcome`, from the reflow base interval
/// `rbase` (see `reflow_base_spec`).
pub open spec fn reflow_delay_spec(
    rbase: int,
    consecutive_429: int,
    consecutive_network_errors: int,
    outcome: AttemptOutcome,
    random: int,
) -> int {
    match outcome {
        AttemptOutcome::Code(c) => if c == 900001 || c == 900002 {
            1_000
        } else if c == 219 || c == 221 {
            5_000
        } else if c == 100051 {
            0
        } else if c == 100009 {
            clamp_spec(rbase, 700, 5_000)
        } else if c == 429 {
            let extra = if consecutive_429 <= 3 { 0 } else { (consecutive_429 - 3) * 250 };
            jitter_spec(clamp_spec(sat_add(rbase, extra), 250, 5_000), random)
        } else {
            rbase
        },
        AttemptOutcome::NetworkError => {
            let extra = consecutive_network_errors * 500;
            clamp_spec(sat_add(rbase, extra), 1_000, 10_000)
        },
    }
}

pub open spec fn sat_inc_u32(x: u32) -> u32 {
    if x == u32::MAX { x } else { (x + 1) as u32 }
}

/// The failure counters after `outcome`: a 429 counts up the 429 streak and
/// ends the network-error streak; a network error counts up its streak; any
/// other code ends both.
pub open spec fn counters_after(
    consecutive_429: u32,
    consecutive_network_errors: u32,
    outcome: AttemptOutcome,
) -> (u32, u32) {
    match outcome {
        AttemptOutcome::Code(c) => if c == 429 {
            (sat_inc_u32(consecutive_429), 0)
        } else {
            (0, 0)
        },
        AttemptOutcome::NetworkError => (consecutive_429, sat_inc_u32(consecutive_network_errors)),
    }
}

/// Whether the opening burst window is open `elapsed_ms` after it started.
pub open spec fn burst_window_open(elapsed_ms: u128) -> bool {
    elapsed_ms <= OPENING_BURST_WINDOW_MS
}

/// The opening burst lasts the first 20 s after pacing started.
pub fn opening_burst_open(elapsed_ms: u128) -> (b: bool)
    ensures
        b == (elapsed_ms <= OPENING_BURST_WINDOW_MS),
{
    elapsed_ms <= OPENING_BURST_WINDOW_MS
}

/// Paces the requests of one purchase task.
pub struct AdaptiveDelayController {
    pub strategy: ActiveStrategy,
    pub base_interval_ms: u64,
    pub consecutive_429: u32,
    pub consecutive_network_errors: u32,
    pub last_412_at: Option<crate::clock::Instant>,
    pub opening_started_at: crate::clock::Instant,
    pub last_interval_ms: u64,
}

impl AdaptiveDelayController {
    /// A controller for `strategy` whose base interval is at least 1 ms; the
    /// opening burst window starts now.
    pub fn new(strategy: ActiveStrategy, base_interval_ms: u64) -> (c: Self)
        ensures
            c.strategy == strategy,
            c.base_interval_ms == if base_interval_ms < 1 { 1 } else { base_interval_ms },
            c.consecutive_429 == 0,
            c.consecutive_network_errors == 0,
            c.last_412_at is None,
            c.last_interval_ms == c.base_interval_ms,
    {
        let base_interval_ms = if base_interval_ms < 1 { 1 } else { base_interval_ms };
        AdaptiveDelayController {
            strategy,
            base_interval_ms,
            consecutive_429: 0,
            consecutive_network_errors: 0,
            last_412_at: None,
            opening_started_at: crate::clock::instant_now(),
            last_interval_ms: base_interval_ms,
        }
    }

    /// The pacing summary shown in the task log: strategy, current interval
    /// and the run of 429 replies.
    pub fn stats_label(&self) -> (r: String)
        ensures
            r@ == "策略: "@ + self.strategy.label_spec() + ", 当前间隔: "@ + decimal_spec(
                self.last_interval_ms as nat,
            ) + "ms, 连续429: "@ + decimal_spec(self.consecutive_429 as nat),
    {
        let s1 = concat_str("策略: ", self.strategy.label());
        let s2 = concat_str(s1.as_str(), ", 当前间隔: ");
        let s3 = concat_str(s2.as_str(), string_from_chars(&u64_to_chars(self.last_interval_ms)).as_str());
        let s4 = concat_str(s3.as_str(), "ms, 连续429: ");
        concat_str(s4.as_str(), string_from_chars(&u64_to_chars(self.consecutive_429 as u64)).as_str())
    }

    /// Whether the opening burst window (the first 20 s) is still open: the
    /// answer `opening_burst_open` gives for the time elapsed since
    /// `opening_started_at`. That time is read from the monotonic clock
    /// (`Instant::elapsed`), so the contract names it only as some elapsed time.
    pub fn in_opening_burst(&self) -> (b: bool)
        ensures
            exists|elapsed_ms: u128| b == #[trigger] burst_window_open(elapsed_ms),
    {
        let elapsed = crate::clock::elapsed_ms(&self.opening_started_at);
        let b = opening_burst_open(elapsed);
        assert(b == burst_window_open(elapsed));
        b
    }

    /// Opening pacing for `outcome` with the burst state and jitter source given.
    pub fn opening_delay_ms_with(&self, outcome: AttemptOutcome, in_burst: bool, random: u64) -> (r:
        u64)
        ensures
            r == opening_delay_spec(
                self.base_interval_ms as int,
                self.consecutive_429 as int,
                self.consecutive_network_errors as int,
                outcome,
                in_burst,
                random as int,
            ),
    {
        let steady = if in_burst {
            clamp_interval(self.base_interval_ms, OPENING_MIN_INTERVAL_MS, 1_000)
        } else {
            let b = if self.base_interval_ms < 1_000 { 1_000 } else { self.base_interval_ms };
            clamp_interval(b, 1_000, 3_000)
        };
        match outcome {
            AttemptOutcome::Code(c) => {
                if c == 900001 || c == 900002 {
                    1_000
                } else if c == 219 || c == 221 {
                    5_000
                } else if c == 100051 {
                    0
                } else if c == 429 {
                    let extra = (self.consecutive_429.saturating_sub(1) as u64) * 100;
                    jitter_with(
                        clamp_interval(
                            self.base_interval_ms.saturating_add(extra),
                            OPENING_MIN_INTERVAL_MS,
                            2_000,
                        ),
                        random,
                    )
                } else {
                    steady
                }
            },
            AttemptOutcome::NetworkError => {
                let extra = self.consecutive_network_errors as u64 * 300;
                clamp_interval(self.base_interval_ms.saturating_add(extra), 500, 5_000)
            },
        }
    }

    /// Opening pacing for `outcome`.
    pub fn opening_delay_ms(&self, _phase: RequestPhase, outcome: AttemptOutcome) -> (r: u64)
        ensures
            exists|in_burst: bool, random: int|
                r == opening_delay_spec(
                    self.base_interval_ms as int,
                    self.consecutive_429 as int,
                    self.consecutive_network_errors as int,
                    outcome,
                    in_burst,
                    random,
                ),
    {
        let in_burst = self.in_opening_burst();
        let random = random_u64();
        self.opening_delay_ms_with(outcome, in_burst, random)
    }

    /// Reflow pacing for `outcome` from the reflow base interval `rbase` and jitter source given.
    pub fn reflow_delay_ms_with(&self, outcome: AttemptOutcome, rbase: u64, random: u64) -> (r: u64)
        ensures
            r == reflow_delay_spec(
                rbase as int,
                self.consecutive_429 as int,
                self.consecutive_network_errors as int,
                outcome,
                random as int,
            ),
    {
        match outcome {
            AttemptOutcome::Code(c) => {
                if c == 900001 || c == 900002 {
                    1_000
                } else if c == 219 || c == 221 {
                    5_000
                } else if c == 100051 {
                    0
                } else if c == 100009 {
                    clamp_interval(rbase, 700, 5_000)
                } else if c == 429 {
                    let extra: u64 = if self.consecutive_429 <= 3 {
                        0
                    } else {
                        (self.consecutive_429 - 3) as u64 * 250
                    };
                    jitter_with(clamp_interval(rbase.saturating_add(extra), 250, 5_000), random)
                } else {
                    rbase
                }
            },
            AttemptOutcome::NetworkError => {
                let extra = self.consecutive_network_errors as u64 * 500;
                clamp_interval(rbase.saturating_add(extra), 1_000, 10_000)
            },
        }
    }

    /// Reflow pacing for `outcome`.
    pub fn reflow_delay_ms(&self, _phase: RequestPhase, outcome: AttemptOutcome) -> (r: u64)
        ensures
            exists|hour: int, random: int|
                0 <= hour < 24 && r == reflow_delay_spec(
                    reflow_base_spec(self.base_interval_ms as int, hour),
                    self.consecutive_429 as int,
                    self.consecutive_network_errors as int,
                    outcome,
                    random,
                ),
    {
        let now = crate::clock::beijing_now();
        let hour = now.hour();
        let rbase = reflow_base_for_hour(self.base_interval_ms, hour);
        let random = random_u64();
        self.reflow_delay_ms_with(outcome, rbase, random)
    }

    /// The cooldown for a 412 answer; remembers now as the time of the last 412.
    pub fn next_412_cooldown_ms(&mut self) -> (r: u64)
        ensures
            final(self).opening_started_at == old(self).opening_started_at,
            final(self).last_412_at is Some,
            final(self).strategy == old(self).strategy,
            final(self).base_interval_ms == old(self).base_interval_ms,
            final(self).consecutive_429 == old(self).consecutive_429,
            final(self).consecutive_network_errors == old(self).consecutive_network_errors,
            final(self).last_interval_ms == old(self).last_interval_ms,
            old(self).last_412_at is None ==> r == FIRST_412_COOLDOWN_MS,
            exists|d: Option<u128>|
                (old(self).last_412_at is None ==> d is None) && r == cooldown_412_spec(d),
    {
        let now = crate::clock::instant_now();
        let since: Option<u128> = match &self.last_412_at {
            Some(last) => Some(crate::clock::millis_between(last, &now)),
            None => None,
        };
        let cooldown = cooldown_after_412(since);
        self.last_412_at = Some(now);
        cooldown
    }

    /// Updates the failure counters for `outcome` and returns the delay before
    /// the next request: the 412 cooldown after a 412, otherwise the pacing of
    /// the active strategy.
    pub fn next_delay_ms(&mut self, phase: RequestPhase, outcome: AttemptOutcome) -> (r: u64)
        ensures
            final(self).opening_started_at == old(self).opening_started_at,
            (final(self).consecutive_429, final(self).consecutive_network_errors)
                == counters_after(old(self).consecutive_429, old(self).consecutive_network_errors, outcome),
            final(self).strategy == old(self).strategy,
            final(self).base_interval_ms == old(self).base_interval_ms,
            final(self).last_interval_ms == old(self).last_interval_ms,
            outcome == AttemptOutcome::Code(412) ==> {
                &&& final(self).last_412_at is Some
                &&& (old(self).last_412_at is None ==> r == FIRST_412_COOLDOWN_MS)
                &&& exists|d: Option<u128>|
                    (old(self).last_412_at is None ==> d is None) && r == cooldown_412_spec(d)
            },
            outcome != AttemptOutcome::Code(412) ==> {
                &&& final(self).last_412_at == old(self).last_412_at
                &&& old(self).strategy == ActiveStrategy::Opening ==> exists|in_burst: bool, random: int|
                    r == opening_delay_spec(
                        old(self).base_interval_ms as int,
                        final(self).consecutive_429 as int,
                        final(self).consecutive_network_errors as int,
                        outcome,
                        in_burst,
                        random,
                    )
                &&& old(self).strategy == ActiveStrategy::Reflow ==> exists|hour: int, random: int|
                    0 <= hour < 24 && r == reflow_delay_spec(
                        reflow_base_spec(old(self).base_interval_ms as int, hour),
                        final(self).consecutive_429 as int,
                        final(self).consecutive_network_errors as int,
                        outcome,
                        random,
                    )
            },
    {
        match outcome {
            AttemptOutcome::Code(c) => {
                if c == 429 {
                    self.consecutive_429 = self.consecutive_429.saturating_add(1);
                    self.consecutive_network_errors = 0;
                } else {
                    self.consecutive_429 = 0;
                    self.consecutive_network_errors = 0;
                }
            },
            AttemptOutcome::NetworkError => {
                self.consecutive_network_errors = self.consecutive_network_errors.saturating_add(1);
            },
        }
        if let AttemptOutcome::Code(412) = outcome {
            return self.next_412_cooldown_ms();
        }
        match self.strategy {
            ActiveStrategy::Opening => self.opening_delay_ms(phase, outcome),
            ActiveStrategy::Reflow => self.reflow_delay_ms(phase, outcome),
        }
    }

    /// As `next_delay_ms`, and remembers the delay as the current interval.
    pub fn next_delay(&mut self, phase: RequestPhase, outcome: AttemptOutcome) -> (r: u64)
        ensures
            final(self).opening_started_at == old(self).opening_started_at,
            final(self).last_interval_ms == r,
            (final(self).consecutive_429, final(self).consecutive_network_errors)
                == counters_after(old(self).consecutive_429, old(self).consecutive_network_errors, outcome),
            final(self).strategy == old(self).strategy,
            final(self).base_interval_ms == old(self).base_interval_ms,
            outcome == AttemptOutcome::Code(412) ==> {
                &&& final(self).last_412_at is Some
                &&& (old(self).last_412_at is None ==> r == FIRST_412_COOLDOWN_MS)
                &&& exists|d: Option<u128>|
                    (old(self).last_412_at is None ==> d is None) && r == cooldown_412_spec(d)
            },
            outcome != AttemptOutcome::Code(412) ==> {
                &&& final(self).last_412_at == old(self).last_412_at
                &&& old(self).strategy == ActiveStrategy::Opening ==> exists|in_burst: bool, random: int|
                    r == opening_delay_spec(
                        old(self).base_interval_ms as int,
                        final(self).consecutive_429 as int,
                        final(self).consecutive_network_errors as int,
                        outcome,
                        in_burst,
                        random,
                    )
                &&& old(self).strategy == ActiveStrategy::Reflow ==> exists|hour: int, random: int|
                    0 <= hour < 24 && r == reflow_delay_spec(
                        reflow_base_spec(old(self).base_interval_ms as int, hour),
                        final(self).consecutive_429 as int,
                        final(self).consecutive_network_errors as int,
                        outcome,
                        random,
                    )
            },
    {
        let interval_ms = self.next_delay_ms(phase, outcome);
        let ghost mid = *self;
        self.last_interval_ms = interval_ms;
        proof {
            if outcome != AttemptOutcome::Code(412) {
                if mid.strategy == ActiveStrategy::Opening {
                    let (b, x) = choose|in_burst: bool, random: int|
                        interval_ms == opening_delay_spec(
                            mid.base_interval_ms as int,
                            mid.consecutive_429 as int,
                            mid.consecutive_network_errors as int,
                            outcome,
                            in_burst,
                            random,
                        );
                    assert(interval_ms == opening_delay_spec(
                        self.base_interval_ms as int,
                        self.consecutive_429 as int,
                        self.consecutive_network_errors as int,
                        outcome,
                        b,
                        x,
                    ));
                }
                if mid.strategy == ActiveStrategy::Reflow {
                    let (h, x) = choose|hour: int, random: int|
                        0 <= hour < 24 && interval_ms == reflow_delay_spec(
                            reflow_base_spec(mid.base_interval_ms as int, hour),
                            mid.consecutive_429 as int,
                            mid.consecutive_network_errors as int,
                            outcome,
                            random,
                        );
                    assert(interval_ms == reflow_delay_spec(
                        reflow_base_spec(self.base_interval_ms as int, h),
                        self.consecutive_429 as int,
                        self.consecutive_network_errors as int,
                        outcome,
                        x,
                    ));
                }
            }
        }
        interval_ms
    }
}

/// A task waiting for the sale time restarts (to refresh its cookies) when more
/// than a minute is left.
pub fn should_restart_before_sale(remaining_ms: i64) -> (b: bool)
    ensures
        b == (remaining_ms > PRE_SALE_RESTART_BEFORE_START_MS),
{
    remaining_ms > PRE_SALE_RESTART_BEFORE_START_MS
}

/// One step of waiting for a moment.
#[derive(Debug, Clone, Copy, PartialEq, Eq, Structural)]
pub enum WaitStep {
    /// The user stopped the task.
    Stopped,
    /// The moment has come.
    Reached,
    /// Sleep this many milliseconds, then look again.
    Sleep(u64),
}

pub open spec fn wait_step_spec(stopped: bool, remaining_ms: i64) -> WaitStep {
    if stopped {
        WaitStep::Stopped
    } else if remaining_ms <= 0 {
        WaitStep::Reached
    } else if remaining_ms > 5000 {
        WaitStep::Sleep(1000)
    } else if remaining_ms > 1000 {
        WaitStep::Sleep(100)
    } else if remaining_ms > 50 {
        WaitStep::Sleep(10)
    } else {
        WaitStep::Sleep(1)
    }
}

/// What a task scheduled for a future sale waits for first.
#[derive(Debug, Clone, Copy, PartialEq, Eq, Structural)]
pub enum PreSalePlan {
    /// Wait until one minute before the sale, then restart to refresh cookies.
    WaitForRestart,
    /// Wait until the sale time.
    WaitForSale,
}

/// A task that may restart and has more than a minute left waits for the
/// restart time; any other waits for the sale itself.
pub fn pre_sale_plan(allow_pre_sale_restart: bool, remaining_ms: i64) -> (r: PreSalePlan)
    ensures
        r == (if allow_pre_sale_restart && remaining_ms > PRE_SALE_RESTART_BEFORE_START_MS {
            PreSalePlan::WaitForRestart
        } else {
            PreSalePlan::WaitForSale
        }),
{
    if allow_pre_sale_restart && should_restart_before_sale(remaining_ms) {
        PreSalePlan::WaitForRestart
    } else {
        PreSalePlan::WaitForSale
    }
}

/// While waiting for a moment `remaining_ms` away: stop when asked, finish when
/// it has come, otherwise sleep in steps that shrink as it draws near.
pub fn wait_step(stopped: bool, remaining_ms: i64) -> (r: WaitStep)
    ensures
        r == wait_step_spec(stopped, remaining_ms),
{
    if stopped {
        WaitStep::Stopped
    } else if remaining_ms <= 0 {
        WaitStep::Reached
    } else if remaining_ms > 5000 {
        WaitStep::Sleep(1000)
    } else if remaining_ms > 1000 {
        WaitStep::Sleep(100)
    } else if remaining_ms > 50 {
        WaitStep::Sleep(10)
    } else {
        WaitStep::Sleep(1)
    }
}

/// The length of the next slice of an interruptible sleep with `remaining_ms` left:
/// at most half a second.
pub fn sleep_slice_ms(remaining_ms: u64) -> (r: u64)
    ensures
        r == if remaining_ms < 500 { remaining_ms } else { 500 },
{
    if remaining_ms < 500 {
        remaining_ms
    } else {
        500
    }
}

/// Background clock synchronisation stops once the sale is at most two
/// seconds away, so that the offset stays fixed for the start.
pub fn background_sync_frozen(remaining_ms: i64) -> (b: bool)
    ensures
        b == (remaining_ms <= TIME_SYNC_FREEZE_BEFORE_START_MS),
{
    remaining_ms <= TIME_SYNC_FREEZE_BEFORE_START_MS
}

/// What a background clock synchronisation does with a newly measured offset.
#[derive(Debug, Clone, Copy, PartialEq, Eq, Structural)]
pub enum OffsetSyncAction {
    /// The offset is close to the current one and is taken.
    Applied,
    /// The offset jumped, but agrees with the jump held back last time, and is taken.
    AcceptedJump,
    /// The offset jumped; it is held back until a second measurement confirms it.
    IgnoredOnce,
}

/// The outcome of one background synchronisation step.
#[derive(Debug, Clone, Copy, PartialEq, Eq, Structural)]
pub struct OffsetSyncDecision {
    pub action: OffsetSyncAction,
    /// The offset to store, if any.
    pub store: Option<i64>,
    /// The jump held back for confirmation after this step.
    pub pending: Option<i64>,
}

pub open spec fn offset_sync_spec(new_offset: i64, old_offset: i64, pending: Option<i64>) -> OffsetSyncDecision {
    if abs_int(new_offset - old_offset) > TIME_SYNC_OFFSET_JUMP_WARN_MS {
        if pending is Some && abs_int(new_offset - pending->0) <= TIME_SYNC_OFFSET_JUMP_WARN_MS {
            OffsetSyncDecision { action: OffsetSyncAction::AcceptedJump, store: Some(new_offset), pending: None }
        } else {
            OffsetSyncDecision { action: OffsetSyncAction::IgnoredOnce, store: None, pending: Some(new_offset) }
        }
    } else {
        OffsetSyncDecision { action: OffsetSyncAction::Applied, store: Some(new_offset), pending: None }
    }
}

pub open spec fn offset_sync_in_range(new_offset: i64, old_offset: i64, pending: Option<i64>) -> bool {
    &&& i64::MIN < new_offset - old_offset <= i64::MAX
    &&& (pending matches Some(p) ==> i64::MIN < new_offset - p <= i64::MAX)
}

fn abs_diff_i64(a: i64, b: i64) -> (r: i64)
    requires
        i64::MIN < a - b <= i64::MAX,
    ensures
        r == abs_int(a - b),
{
    let d = a - b;
    if d < 0 { -d } else { d }
}

/// Decides on a newly measured clock offset: a change of at most 300 ms is
/// taken at once; a larger jump is held back once and taken only when the next
/// measurement agrees with it within 300 ms.
pub fn offset_sync_step(new_offset: i64, old_offset: i64, pending: Option<i64>) -> (d: OffsetSyncDecision)
    requires
        offset_sync_in_range(new_offset, old_offset, pending),
    ensures
        d == offset_sync_spec(new_offset, old_offset, pending),
{
    if abs_diff_i64(new_offset, old_offset) > TIME_SYNC_OFFSET_JUMP_WARN_MS {
        let confirmed = match pending {
            Some(p) => abs_diff_i64(new_offset, p) <= TIME_SYNC_OFFSET_JUMP_WARN_MS,
            None => false,
        };
        if confirmed {
            OffsetSyncDecision { action: OffsetSyncAction::AcceptedJump, store: Some(new_offset), pending: None }
        } else {
            OffsetSyncDecision { action: OffsetSyncAction::IgnoredOnce, store: None, pending: Some(new_offset) }
        }
    } else {
        OffsetSyncDecision { action: OffsetSyncAction::Applied, store: Some(new_offset), pending: None }
    }
}

/// The error code of a failed prepare answer: the answer failed when neither
/// `errno` nor `code` is 0 (a missing field counts as -1); the code reported is
/// `errno`, else `code`, else -1.
pub open spec fn prepare_failure_spec(errno: Option<i64>, code: Option<i64>) -> Option<i64> {
    let e = match errno { Some(x) => x, None => -1i64 };
    let c = match code { Some(x) => x, None => -1i64 };
    if e != 0 && c != 0 {
        Some(match errno { Some(x) => x, None => match code { Some(y) => y, None => -1i64 } })
    } else {
        None
    }
}

pub fn prepare_failure(errno: Option<i64>, code: Option<i64>) -> (r: Option<i64>)
    ensures
        r == prepare_failure_spec(errno, code),
{
    let e = match errno { Some(x) => x, None => -1 };
    let c = match code { Some(x) => x, None => -1 };
    if e != 0 && c != 0 {
        Some(match errno { Some(x) => x, None => match code { Some(y) => y, None => -1 } })
    } else {
        None
    }
}

/// The code of a create answer: `errno`, else `code`, else -1.
pub fn answer_code(errno: Option<i64>, code: Option<i64>) -> (r: i64)
    ensures
        r == (match errno { Some(x) => x, None => match code { Some(y) => y, None => -1i64 } }),
{
    match errno {
        Some(x) => x,
        None => match code {
            Some(y) => y,
            None => -1,
        },
    }
}

/// What a create answer means for the task.
#[derive(Debug, Clone, Copy, PartialEq, Eq, Structural)]
pub enum CreateOutcome {
    /// An order exists (0, 100048 or 100079).
    OrderExists,
    /// The price changed (100034); retry with the new price.
    PriceChanged,
    /// The prepare token expired (100051); prepare again at once.
    TokenExpired,
    /// Any other code: wait and retry.
    Retry,
}

pub open spec fn create_outcome_spec(code: i64) -> CreateOutcome {
    if code == 0 || code == 100048 || code == 100079 {
        CreateOutcome::OrderExists
    } else if code == 100034 {
        CreateOutcome::PriceChanged
    } else if code == 100051 {
        CreateOutcome::TokenExpired
    } else {
        CreateOutcome::Retry
    }
}

pub fn create_outcome(code: i64) -> (r: CreateOutcome)
    ensures
        r == create_outcome_spec(code),
{
    if code == 0 || code == 100048 || code == 100079 {
        CreateOutcome::OrderExists
    } else if code == 100034 {
        CreateOutcome::PriceChanged
    } else if code == 100051 {
        CreateOutcome::TokenExpired
    } else {
        CreateOutcome::Retry
    }
}

/// Create attempts per prepared token: the user's count, or 60 when it is 0.
pub fn max_create_attempts(total_attempts: u32) -> (r: u32)
    ensures
        r == if total_attempts > 0 { total_attempts } else { 60 },
        r > 0,
{
    if total_attempts > 0 {
        total_attempts
    } else {
        60
    }
}

/// Create attempts are logged for the first, the last, and every tenth.
pub fn should_log_attempt(attempt: u32, max_attempts: u32) -> (b: bool)
    ensures
        b == (attempt == 1 || attempt == max_attempts || attempt % 10 == 0),
{
    attempt == 1 || attempt == max_attempts || attempt % 10 == 0
}

/// The pause before the next create attempt is logged when the attempt itself
/// was, after a 412 answer, and whenever it is five seconds or longer.
pub fn should_log_create_delay(attempt_logged: bool, outcome: AttemptOutcome, delay_ms: u64) -> (b: bool)
    ensures
        b == (attempt_logged || outcome == AttemptOutcome::Code(412) || delay_ms >= 5_000),
{
    let is_412 = match outcome {
        AttemptOutcome::Code(c) => c == 412,
        AttemptOutcome::NetworkError => false,
    };
    attempt_logged || is_412 || delay_ms >= 5_000
}

/// The attempt budget after a failed round, and whether the task stops: in
/// mode 1 a failure counts against the budget unless it came before the sale
/// time; the task stops when the budget is used up.
pub open spec fn consume_attempt_spec(left_time: i32, mode: u32, before_sale: bool) -> (i32, bool) {
    if mode == 1 && !before_sale {
        (((left_time - 1) as i32), left_time - 1 <= 0)
    } else {
        (left_time, false)
    }
}

pub fn consume_attempt(left_time: i32, mode: u32, before_sale: bool) -> (r: (i32, bool))
    requires
        mode == 1 ==> left_time > i32::MIN,
    ensures
        r == consume_attempt_spec(left_time, mode, before_sale),
{
    if mode == 1 && !before_sale {
        let left = left_time - 1;
        (left, left <= 0)
    } else {
        (left_time, false)
    }
}

/// `s` with every `c` removed.
pub open spec fn remove_char_spec(s: Seq<char>, c: char) -> Seq<char> {
    s.filter(|x: char| x != c)
}

/// The prepare answer's `ptoken` with its `=` padding removed.
pub fn strip_padding(ptoken: &str) -> (r: String)
    ensures
        r@ == remove_char_spec(ptoken@, '='),
{
    let cs = chars_of(ptoken);
    let mut out: Vec<char> = Vec::new();
    let mut i: usize = 0;
    while i < cs.len()
        invariant
            i <= cs.len(),
            out@ == remove_char_spec(cs@.take(i as int), '='),
        decreases cs.len() - i,
    {
        proof {
            reveal_with_fuel(Seq::<_>::filter, 1);
            assert(cs@.take(i + 1).drop_last() =~= cs@.take(i as int));
        }
        if cs[i] != '=' {
            out.push(cs[i]);
        }
        i = i + 1;
    }
    assert(cs@.take(cs.len() as int) =~= cs@);
    crate::text::string_from_chars(&out)
}

/// A contact phone number is sent only when it is not masked with `*`.
pub fn usable_contact_tel(tel: &str) -> (b: bool)
    ensures
        b == !tel@.contains('*'),
{
    !contains_char(tel, '*')
}

/// What a purchase task reports to whoever watches it. The methods only
/// deliver messages; nothing about them is assumed.
pub trait TaskEmitter: Clone + Send + Sync + 'static {
    fn emit_log(&self, task_id: &str, message: &str);
    fn emit_payment(&self, task_id: &str, url: &str);
    fn emit_task_result(&self, task_id: &str, success: bool, message: &str);
}

/// A task that ended to refresh its cookies before the sale starts again,
/// once, unless it was stopped meanwhile.
pub fn restart_task(outcome: BuyTaskOutcome, allow_pre_sale_restart: bool, was_stopped: bool) -> (b:
    bool)
    ensures
        b == (outcome == BuyTaskOutcome::RestartBeforeSale && allow_pre_sale_restart && !was_stopped),
{
    match outcome {
        BuyTaskOutcome::RestartBeforeSale => allow_pre_sale_restart && !was_stopped,
        BuyTaskOutcome::Finished => false,
    }
}

/// Whether the sale has not started yet, given the time left until it (a
/// scheduled task only; an unscheduled one is never before its sale).
pub fn before_sale(remaining_ms: Option<i64>) -> (b: bool)
    ensures
        b == (remaining_ms matches Some(r) && r > 0),
{
    match remaining_ms {
        Some(r) => r > 0,
        None => false,
    }
}

/// The prepare endpoint of a project.
pub fn prepare_url(project_id: &str) -> (r: String)
    ensures
        r@ == "https://show.bilibili.com/api/ticket/order/prepare?project_id="@ + project_id@,
{
    concat_str("https://show.bilibili.com/api/ticket/order/prepare?project_id=", project_id)
}

/// The create endpoint of a project; hot projects also pass the ptoken.
pub fn create_url(project_id: &str, ptoken: Option<&str>) -> (r: String)
    ensures
        r@ == match ptoken {
            Some(p) => "https://show.bilibili.com/api/ticket/order/createV2?project_id="@ + project_id@
                + "&ptoken="@ + p@,
            None => "https://show.bilibili.com/api/ticket/order/createV2?project_id="@ + project_id@,
        },
{
    let base = concat_str("https://show.bilibili.com/api/ticket/order/createV2?project_id=", project_id);
    match ptoken {
        Some(p) => {
            let with_key = concat_str(base.as_str(), "&ptoken=");
            concat_str(with_key.as_str(), p)
        },
        None => base,
    }
}

/// The endpoint that gives the payment QR code of an order.
pub fn pay_param_url(order_id: &str) -> (r: String)
    ensures
        r@ == "https://show.bilibili.com/api/ticket/order/getPayParam?order_id="@ + order_id@,
{
    concat_str("https://show.bilibili.com/api/ticket/order/getPayParam?order_id=", order_id)
}

// ---------------------------------------------------------------------------
// Laws of the pacing and synchronisation decisions.
// ---------------------------------------------------------------------------

/// A busy answer (900001, 900002) waits at least a second under either strategy,
/// whatever the controller's state.
pub proof fn law_busy_codes_wait_a_second(
    code: i64,
    base: int,
    rbase: int,
    consecutive_429: int,
    consecutive_network_errors: int,
    in_burst: bool,
    random: int,
)
    requires
        code == 900001 || code == 900002,
    ensures
        opening_delay_spec(
            base,
            consecutive_429,
            consecutive_network_errors,
            AttemptOutcome::Code(code),
            in_burst,
            random,
        ) >= 1_000,
        reflow_delay_spec(
            rbase,
            consecutive_429,
            consecutive_network_errors,
            AttemptOutcome::Code(code),
            random,
        ) >= 1_000,
{
}

/// An expired token (100051) is answered by preparing again at once, under
/// either strategy.
pub proof fn law_token_expiry_retries_at_once(
    base: int,
    rbase: int,
    consecutive_429: int,
    consecutive_network_errors: int,
    in_burst: bool,
    random: int,
)
    ensures
        opening_delay_spec(
            base,
            consecutive_429,
            consecutive_network_errors,
            AttemptOutcome::Code(100051),
            in_burst,
            random,
        ) == 0,
        reflow_delay_spec(
            rbase,
            consecutive_429,
            consecutive_network_errors,
            AttemptOutcome::Code(100051),
            random,
        ) == 0,
{
}

/// Opening pacing never goes below 250 ms, except for the immediate re-prepare
/// after an expired token.
pub proof fn law_opening_pacing_floor(
    base: int,
    consecutive_429: int,
    consecutive_network_errors: int,
    outcome: AttemptOutcome,
    in_burst: bool,
    random: int,
)
    requires
        base >= 0,
        consecutive_429 >= 0,
        consecutive_network_errors >= 0,
        random >= 0,
        outcome != AttemptOutcome::Code(100051),
    ensures
        opening_delay_spec(
            base,
            consecutive_429,
            consecutive_network_errors,
            outcome,
            in_burst,
            random,
        ) >= OPENING_MIN_INTERVAL_MS,
{
}

/// A 412 answer always cools down for at least a minute, and for five minutes
/// when the previous 412 came at most ten minutes earlier.
pub proof fn law_412_cooldown(since_last_412_ms: Option<u128>)
    ensures
        cooldown_412_spec(since_last_412_ms) >= FIRST_412_COOLDOWN_MS,
        (since_last_412_ms matches Some(d) && d <= RECHECK_412_ESCALATE_MS) ==> cooldown_412_spec(
            since_last_412_ms,
        ) == REPEATED_412_COOLDOWN_MS,
        (since_last_412_ms is None || since_last_412_ms->0 > RECHECK_412_ESCALATE_MS)
            ==> cooldown_412_spec(since_last_412_ms) == FIRST_412_COOLDOWN_MS,
{
}

/// A clock offset is stored only when it is within 300 ms of the current one,
/// or within 300 ms of a jump held back by the step before.
pub proof fn law_offset_store_is_confirmed(new_offset: i64, old_offset: i64, pending: Option<i64>)
    ensures
        offset_sync_spec(new_offset, old_offset, pending).store matches Some(x) ==> {
            &&& x == new_offset
            &&& (abs_int(new_offset - old_offset) <= TIME_SYNC_OFFSET_JUMP_WARN_MS || (
            pending matches Some(p) && abs_int(new_offset - p) <= TIME_SYNC_OFFSET_JUMP_WARN_MS))
        },
{
}

/// A jump of more than 300 ms is never taken at its first measurement; it is
/// taken when the next measurement agrees with it within 300 ms.
pub proof fn law_offset_jump_needs_confirmation(old_offset: i64, jump: i64, confirmation: i64)
    requires
        abs_int(jump - old_offset) > TIME_SYNC_OFFSET_JUMP_WARN_MS,
        abs_int(confirmation - jump) <= TIME_SYNC_OFFSET_JUMP_WARN_MS,
    ensures
        offset_sync_spec(jump, old_offset, None).store is None,
        offset_sync_spec(jump, old_offset, None).pending == Some(jump),
        offset_sync_spec(
            confirmation,
            old_offset,
            offset_sync_spec(jump, old_offset, None).pending,
        ).store == Some(confirmation),
{
}

/// In mode 1 a task with a budget of `n` rounds stops at its `n`-th failed
/// round after the sale started, and not before; failures before the sale, and
/// any failure in other modes, leave the budget as it is.
pub proof fn law_attempt_budget(n: i32, k: int, mode: u32)
    requires
        1 <= k <= n,
    ensures
        consume_attempt_spec((n - (k - 1)) as i32, 1, false) == (((n - k) as i32), k == n),
        consume_attempt_spec((n - (k - 1)) as i32, 1, true) == (((n - (k - 1)) as i32), false),
        mode != 1 ==> consume_attempt_spec((n - (k - 1)) as i32, mode, false) == (
            ((n - (k - 1)) as i32),
            false,
        ),
{
}

/// Every decision on a measured offset: an offset within 300 ms of the current
/// one is applied and clears any held-back jump; a larger jump that agrees
/// within 300 ms with the held-back one is taken and clears it; any other jump
/// is held back and nothing is stored. Whatever is stored leaves no jump held back.
pub proof fn law_offset_sync_decision(new_offset: i64, old_offset: i64, pending: Option<i64>)
    ensures
        ({
            let d = offset_sync_spec(new_offset, old_offset, pending);
            let close = -300 <= new_offset - old_offset <= 300;
            let confirmed = pending matches Some(p) && -300 <= new_offset - p <= 300;
            &&& (d.action == OffsetSyncAction::Applied) == close
            &&& (d.action == OffsetSyncAction::AcceptedJump) == (!close && confirmed)
            &&& (d.action == OffsetSyncAction::IgnoredOnce) == (!close && !confirmed)
            &&& d.action == OffsetSyncAction::Applied ==> d.store == Some(new_offset) && d.pending is None
            &&& d.action == OffsetSyncAction::AcceptedJump ==> d.store == Some(new_offset) && d.pending is None
            &&& d.action == OffsetSyncAction::IgnoredOnce ==> d.store is None && d.pending == Some(new_offset)
            &&& d.store is Some ==> d.pending is None
        }),
{
}

/// After a network error the pause grows with the run of network errors and
/// nothing else: under opening pacing it is the base interval plus 300 ms per
/// error in the run, kept between 500 ms and 5 s; under reflow pacing the
/// reflow base plus 500 ms per error, kept between 1 s and 10 s. The 429
/// streak, the burst window and the jitter source play no part.
pub proof fn law_network_error_backoff(
    base: u64,
    rbase: u64,
    consecutive_429: u32,
    consecutive_network_errors: u32,
    in_burst: bool,
    random: u64,
)
    ensures
        ({
            let t = base + 300 * consecutive_network_errors;
            opening_delay_spec(
                base as int,
                consecutive_429 as int,
                consecutive_network_errors as int,
                AttemptOutcome::NetworkError,
                in_burst,
                random as int,
            ) == if t < 500 {
                500
            } else if t > 5_000 {
                5_000
            } else {
                t
            }
        }),
        ({
            let t = rbase + 500 * consecutive_network_errors;
            reflow_delay_spec(
                rbase as int,
                consecutive_429 as int,
                consecutive_network_errors as int,
                AttemptOutcome::NetworkError,
                random as int,
            ) == if t < 1_000 {
                1_000
            } else if t > 10_000 {
                10_000
            } else {
                t
            }
        }),
{
}

/// After a 429 answer the pause grows with the 429 streak and nothing else,
/// plus a jitter of `random % 81` ms: under opening pacing the base interval
/// plus 100 ms for each 429 after the first, kept between 250 ms and 2 s;
/// under reflow pacing the reflow base plus 250 ms for each 429 after the
/// third, kept between 250 ms and 5 s. The network-error streak and the burst
/// window play no part.
pub proof fn law_429_backoff(
    base: u64,
    rbase: u64,
    consecutive_429: u32,
    consecutive_network_errors: u32,
    in_burst: bool,
    random: u64,
)
    ensures
        ({
            let t = base + 100 * (if consecutive_429 >= 1 { consecutive_429 - 1 } else { 0 });
            let d = if t < 250 {
                250
            } else if t > 2_000 {
                2_000
            } else {
                t
            };
            opening_delay_spec(
                base as int,
                consecutive_429 as int,
                consecutive_network_errors as int,
                AttemptOutcome::Code(429),
                in_burst,
                random as int,
            ) == d + random % 81
        }),
        ({
            let t = rbase + 250 * (if consecutive_429 > 3 { consecutive_429 - 3 } else { 0 });
            let d = if t < 250 {
                250
            } else if t > 5_000 {
                5_000
            } else {
                t
            };
            reflow_delay_spec(
                rbase as int,
                consecutive_429 as int,
                consecutive_network_errors as int,
                AttemptOutcome::Code(429),
                random as int,
            ) == d + random % 81
        }),
{
}

/// The pause after any other answer. Busy answers (900001, 900002) wait a
/// second, unavailable tickets (219, 221) five seconds, an expired token
/// (100051) nothing. Under opening pacing every other code waits the base
/// interval kept between 250 ms and 1 s inside the burst window, and between
/// 1 s and 3 s after it. Under reflow pacing a 100009 waits the reflow base
/// kept between 700 ms and 5 s, and every other code the reflow base itself.
pub proof fn law_answer_pacing(
    base: u64,
    rbase: u64,
    consecutive_429: u32,
    consecutive_network_errors: u32,
    code: i64,
    in_burst: bool,
    random: u64,
)
    requires
        code != 429,
    ensures
        ({
            let o = opening_delay_spec(
                base as int,
                consecutive_429 as int,
                consecutive_network_errors as int,
                AttemptOutcome::Code(code),
                in_burst,
                random as int,
            );
            let steady = if in_burst {
                if base < 250 {
                    250
                } else if base > 1_000 {
                    1_000
                } else {
                    base as int
                }
            } else {
                if base < 1_000 {
                    1_000
                } else if base > 3_000 {
                    3_000
                } else {
                    base as int
                }
            };
            o == if code == 900001 || code == 900002 {
                1_000
            } else if code == 219 || code == 221 {
                5_000
            } else if code == 100051 {
                0
            } else {
                steady
            }
        }),
        ({
            let r = reflow_delay_spec(
                rbase as int,
                consecutive_429 as int,
                consecutive_network_errors as int,
                AttemptOutcome::Code(code),
                random as int,
            );
            r == if code == 900001 || code == 900002 {
                1_000
            } else if code == 219 || code == 221 {
                5_000
            } else if code == 100051 {
                0
            } else if code == 100009 {
                if rbase < 700 {
                    700
                } else if rbase > 5_000 {
                    5_000
                } else {
                    rbase as int
                }
            } else {
                rbase as int
            }
        }),
{
}

} // verus!
