//! The threshold monitor: a circuit breaker over sliding time windows.
//!
//! The monitor counts failures and outflow in a fixed-length window. When a
//! configured bound is exceeded it trips: every fund-moving operation is
//! refused until a cooldown has passed.
//!
//! The cooldown backs off exponentially. A breach that finds `k` breaches
//! already counted in the current and the previous window opens the breaker
//! for `cooldown_period_secs * cooldown_multiplier^k` seconds: the first
//! breach after two quiet windows for the plain period, the next one for
//! the period times the multiplier, and so on. Times and counters saturate
//! at the largest value of their type.
//!
//! Nothing here runs on a timer; the state is re-evaluated against the
//! clock value that each call supplies.

use crate::error::{BreachMetric, EscrowError};
use vstd::arithmetic::power::{
    lemma0_pow, lemma1_pow, lemma_pow0, lemma_pow_increases, lemma_pow_positive,
    lemma_pow_strictly_increases, pow,
};
use vstd::prelude::*;

verus! {

/// Error code reported when a bound was exceeded.
pub const ERR_THRESHOLD_BREACHED: u32 = 2001;

/// Error code reported when a configuration was rejected.
pub const ERR_INVALID_THRESHOLD_CONFIG: u32 = 2002;

/// Error code reported while the circuit breaker is open.
pub const ERR_COOLDOWN_ACTIVE: u32 = 2003;

/// Error code reserved for a window that has not expired yet.
pub const ERR_WINDOW_NOT_EXPIRED: u32 = 2004;

/// Configuration for threshold-based circuit breaking.
#[derive(Clone, Copy, Debug, PartialEq, Eq, Structural)]
pub struct ThresholdConfig {
    /// Maximum failures allowed per time window.
    pub failure_rate_threshold: u32,
    /// Maximum outflow amount per time window.
    pub outflow_volume_threshold: i128,
    /// Maximum amount for a single payout transaction.
    pub max_single_payout: i128,
    /// Time window duration in seconds.
    pub time_window_secs: u64,
    /// Minimum cooldown period before reopening, in seconds.
    pub cooldown_period_secs: u64,
    /// Backoff multiplier for repeated breaches.
    pub cooldown_multiplier: u32,
}

impl ThresholdConfig {
    /// The conservative default: at most 10 failures and 5M tokens (at 7
    /// decimals) of outflow per 10-minute window, 500K tokens per payout,
    /// a 5-minute cooldown that doubles with every repeated breach.
    pub open spec fn spec_default() -> ThresholdConfig {
        ThresholdConfig {
            failure_rate_threshold: 10,
            outflow_volume_threshold: 5_000_000_0000000,
            max_single_payout: 500_000_0000000,
            time_window_secs: 600,
            cooldown_period_secs: 300,
            cooldown_multiplier: 2,
        }
    }

    /// Whether every value lies in its admissible range.
    pub open spec fn is_valid(&self) -> bool {
        &&& 1 <= self.failure_rate_threshold <= 1000
        &&& self.outflow_volume_threshold > 0
        &&& self.max_single_payout > 0
        &&& 10 <= self.time_window_secs <= 86400
        &&& 60 <= self.cooldown_period_secs <= 3600
        &&& self.cooldown_multiplier >= 1
    }

    /// The complaint about the first value that is out of range, in the
    /// order of the fields; `None` for a valid configuration.
    pub open spec fn fault(&self) -> Option<&'static str> {
        if self.failure_rate_threshold == 0 || self.failure_rate_threshold > 1000 {
            Some("Failure threshold must be between 1 and 1000")
        } else if self.outflow_volume_threshold <= 0 {
            Some("Outflow threshold must be greater than zero")
        } else if self.max_single_payout <= 0 {
            Some("Max single payout must be greater than zero")
        } else if self.time_window_secs < 10 || self.time_window_secs > 86400 {
            Some("Time window must be between 10 and 86400 seconds")
        } else if self.cooldown_period_secs < 60 || self.cooldown_period_secs > 3600 {
            Some("Cooldown period must be between 60 and 3600 seconds")
        } else if self.cooldown_multiplier == 0 {
            Some("Cooldown multiplier must be at least 1")
        } else {
            None
        }
    }

    /// Default configuration with conservative thresholds.
    pub fn default() -> (config: Self)
        ensures
            config == Self::spec_default(),
            config.is_valid(),
    {
        ThresholdConfig {
            failure_rate_threshold: 10,
            outflow_volume_threshold: 5_000_000_0000000,
            max_single_payout: 500_000_0000000,
            time_window_secs: 600,
            cooldown_period_secs: 300,
            cooldown_multiplier: 2,
        }
    }

    /// Validate configuration values.
    ///
    /// The configuration is accepted exactly when every value lies in its
    /// range; otherwise the first offending field, in declaration order,
    /// decides the message.
    pub fn validate(&self) -> (checked: Result<(), &'static str>)
        ensures
            checked is Ok <==> self.is_valid(),
            checked == (match self.fault() {
                Some(reason) => Err::<(), &'static str>(reason),
                None => Ok(()),
            }),
    {
        if self.failure_rate_threshold == 0 || self.failure_rate_threshold > 1000 {
            return Err("Failure threshold must be between 1 and 1000");
        }
        if self.outflow_volume_threshold <= 0 {
            return Err("Outflow threshold must be greater than zero");
        }
        if self.max_single_payout <= 0 {
            return Err("Max single payout must be greater than zero");
        }
        if self.time_window_secs < 10 || self.time_window_secs > 86400 {
            return Err("Time window must be between 10 and 86400 seconds");
        }
        if self.cooldown_period_secs < 60 || self.cooldown_period_secs > 3600 {
            return Err("Cooldown period must be between 60 and 3600 seconds");
        }
        if self.cooldown_multiplier == 0 {
            return Err("Cooldown multiplier must be at least 1");
        }
        Ok(())
    }
}

/// Current metrics for a time window.
#[derive(Clone, Copy, Debug, PartialEq, Eq, Structural)]
pub struct WindowMetrics {
    /// Window start timestamp.
    pub window_start: u64,
    /// Failures in the window.
    pub failure_count: u32,
    /// Successes in the window.
    pub success_count: u32,
    /// Total outflow in the window.
    pub total_outflow: i128,
    /// Largest single outflow in the window.
    pub max_single_outflow: i128,
    /// Number of times thresholds were breached in the window.
    pub breach_count: u32,
}

impl WindowMetrics {
    /// The empty window that starts at `window_start`.
    pub open spec fn spec_new(window_start: u64) -> WindowMetrics {
        WindowMetrics {
            window_start,
            failure_count: 0,
            success_count: 0,
            total_outflow: 0,
            max_single_outflow: 0,
            breach_count: 0,
        }
    }

    /// A fresh window that starts at `window_start` with all counters zero.
    pub fn new(window_start: u64) -> (metrics: Self)
        ensures
            metrics == Self::spec_new(window_start),
    {
        WindowMetrics {
            window_start,
            failure_count: 0,
            success_count: 0,
            total_outflow: 0,
            max_single_outflow: 0,
            breach_count: 0,
        }
    }
}

/// Threshold breach information, written once per breach.
#[derive(Clone, Copy, Debug, PartialEq, Eq, Structural)]
pub struct ThresholdBreach {
    /// Type of metric that breached.
    pub metric_type: BreachMetric,
    /// Configured threshold value.
    pub threshold_value: i128,
    /// Actual value that breached.
    pub actual_value: i128,
    /// When the breach occurred.
    pub timestamp: u64,
    /// Total breaches in the window, this one included.
    pub breach_count: u32,
}

/// The parts of the monitor that are kept between calls.
#[derive(Clone, Copy, Debug, PartialEq, Eq, Structural, Hash)]
pub enum ThresholdKey {
    Config,
    CurrentMetrics,
    PreviousMetrics,
    LastCooldownEnd,
    CooldownMultiplier,
}

/// `x` brought into the range of `u64`.
pub open spec fn clamp_u64(x: int) -> u64 {
    if x < 0 {
        0
    } else if x > u64::MAX {
        u64::MAX
    } else {
        x as u64
    }
}

/// `x` brought into the range of `i128`.
pub open spec fn clamp_i128(x: int) -> i128 {
    if x < i128::MIN {
        i128::MIN
    } else if x > i128::MAX {
        i128::MAX
    } else {
        x as i128
    }
}

/// `count` plus one, staying at the largest value once it is reached.
pub open spec fn bump(count: u32) -> u32 {
    if count < u32::MAX {
        (count + 1) as u32
    } else {
        count
    }
}

/// The first amount of `amounts` that is above `cap`, if there is one.
pub open spec fn first_over_cap(amounts: Seq<i128>, cap: i128) -> Option<i128>
    decreases amounts.len(),
{
    if amounts.len() == 0 {
        None
    } else if amounts[0] > cap {
        Some(amounts[0])
    } else {
        first_over_cap(amounts.skip(1), cap)
    }
}

/// Why the monitor refused an operation, and the breach record
/// that was written if the refusal itself tripped the breaker.
#[derive(Clone, Copy, Debug, PartialEq, Eq)]
pub struct Refusal {
    pub error: EscrowError,
    pub breach: Option<ThresholdBreach>,
}

/// Everything the monitor keeps between calls.
///
/// The breaker is open at time `now` exactly when `now < last_cooldown_end`;
/// it closes by itself when the clock passes that point.
#[derive(Clone, Copy, Debug, PartialEq, Eq, Structural)]
pub struct MonitorState {
    /// The bounds in force.
    pub config: ThresholdConfig,
    /// The window that is being filled.
    pub current: WindowMetrics,
    /// The window before it, kept for reading only.
    pub previous: WindowMetrics,
    /// The time at which the latest cooldown ends.
    pub last_cooldown_end: u64,
    /// The factor by which the latest cooldown was stretched.
    pub cooldown_multiplier_applied: u64,
}

impl MonitorState {
    /// The state before anything was observed: two empty windows that start
    /// at time zero, and a closed breaker.
    pub open spec fn initial(config: ThresholdConfig) -> MonitorState {
        MonitorState {
            config,
            current: WindowMetrics::spec_new(0),
            previous: WindowMetrics::spec_new(0),
            last_cooldown_end: 0,
            cooldown_multiplier_applied: 1,
        }
    }

    /// The state with `config` in force and everything else as it was.
    pub open spec fn with_config(self, config: ThresholdConfig) -> MonitorState {
        MonitorState { config, ..self }
    }

    /// Whether the current window has lasted its full length at time `now`.
    pub open spec fn window_expired(self, now: u64) -> bool {
        now - self.current.window_start >= self.config.time_window_secs
    }

    /// The state after the lazy window rollover at time `now`: an expired
    /// window becomes the previous one and a fresh window starts at `now`.
    pub open spec fn rolled(self, now: u64) -> MonitorState {
        if self.window_expired(now) {
            MonitorState { current: WindowMetrics::spec_new(now), previous: self.current, ..self }
        } else {
            self
        }
    }

    /// Whether the breaker is open at time `now`.
    pub open spec fn cooling(self, now: u64) -> bool {
        now < self.last_cooldown_end
    }

    /// The number of breaches in the two retained windows.
    pub open spec fn horizon_breaches(self) -> nat {
        (self.previous.breach_count + self.current.breach_count) as nat
    }

    /// The factor by which the next cooldown is stretched: the multiplier
    /// to the power of the breaches already in the two retained windows.
    pub open spec fn backoff_factor(self) -> int {
        pow(self.config.cooldown_multiplier as int, self.horizon_breaches())
    }

    /// The length of the next cooldown in seconds.
    pub open spec fn cooldown_secs(self) -> int {
        self.config.cooldown_period_secs * self.backoff_factor()
    }

    /// The state after a breach at time `now`: the breach is counted in the
    /// current window and the breaker is open for the next cooldown length.
    pub open spec fn tripped(self, now: u64) -> MonitorState {
        MonitorState {
            current: WindowMetrics {
                breach_count: bump(self.current.breach_count),
                ..self.current
            },
            last_cooldown_end: clamp_u64(now + self.cooldown_secs()),
            cooldown_multiplier_applied: clamp_u64(self.backoff_factor()),
            ..self
        }
    }

    /// The record written for a breach at time `now`.
    pub open spec fn breach_record(
        self,
        metric: BreachMetric,
        threshold: i128,
        actual: i128,
        now: u64,
    ) -> ThresholdBreach {
        ThresholdBreach {
            metric_type: metric,
            threshold_value: threshold,
            actual_value: actual,
            timestamp: now,
            breach_count: bump(self.current.breach_count),
        }
    }

    /// The admission decision at time `now` for an operation of which
    /// `over_cap` is the first requested amount above the single-payout cap.
    ///
    /// The window is rolled first. An open breaker refuses with
    /// `CooldownActive`. An amount above the cap is itself a breach: it is
    /// recorded and opens the breaker although nothing was paid.
    pub open spec fn admission(self, over_cap: Option<i128>, now: u64) -> (
        MonitorState,
        Result<(), Refusal>,
    ) {
        let rolled = self.rolled(now);
        if rolled.cooling(now) {
            (
                rolled,
                Err(
                    Refusal {
                        error: EscrowError::CooldownActive { until: rolled.last_cooldown_end },
                        breach: None,
                    },
                ),
            )
        } else {
            match over_cap {
                Some(amount) => (
                    rolled.tripped(now),
                    Err(
                        Refusal {
                            error: EscrowError::ThresholdBreached {
                                metric: BreachMetric::SinglePayout,
                                threshold: rolled.config.max_single_payout,
                                actual: amount,
                            },
                            breach: Some(
                                rolled.breach_record(
                                    BreachMetric::SinglePayout,
                                    rolled.config.max_single_payout,
                                    amount,
                                    now,
                                ),
                            ),
                        },
                    ),
                ),
                None => (rolled, Ok(())),
            }
        }
    }

    /// The admission decision for one payout of `amount`.
    pub open spec fn single_admission(self, amount: i128, now: u64) -> (
        MonitorState,
        Result<(), Refusal>,
    ) {
        self.admission(
            if amount > self.config.max_single_payout {
                Some(amount)
            } else {
                None
            },
            now,
        )
    }

    /// The admission decision for a batch with the line items `amounts`.
    pub open spec fn batch_admission(self, amounts: Seq<i128>, now: u64) -> (
        MonitorState,
        Result<(), Refusal>,
    ) {
        self.admission(first_over_cap(amounts, self.config.max_single_payout), now)
    }

    /// The state after counting one outcome in the current window. A
    /// success adds `amount` to the outflow; a failure only counts.
    pub open spec fn noted(self, success: bool, amount: i128) -> MonitorState {
        if success {
            MonitorState {
                current: WindowMetrics {
                    success_count: bump(self.current.success_count),
                    total_outflow: clamp_i128(self.current.total_outflow + amount),
                    max_single_outflow: if amount > self.current.max_single_outflow {
                        amount
                    } else {
                        self.current.max_single_outflow
                    },
                    ..self.current
                },
                ..self
            }
        } else {
            MonitorState {
                current: WindowMetrics {
                    failure_count: bump(self.current.failure_count),
                    ..self.current
                },
                ..self
            }
        }
    }

    /// The bound that the current window exceeds, with the bound and the
    /// value that exceeds it. The failure count is looked at first.
    pub open spec fn excess(self) -> Option<(BreachMetric, i128, i128)> {
        if self.current.failure_count > self.config.failure_rate_threshold {
            Some(
                (
                    BreachMetric::FailureRate,
                    self.config.failure_rate_threshold as i128,
                    self.current.failure_count as i128,
                ),
            )
        } else if self.current.total_outflow > self.config.outflow_volume_threshold {
            Some(
                (
                    BreachMetric::OutflowVolume,
                    self.config.outflow_volume_threshold,
                    self.current.total_outflow,
                ),
            )
        } else {
            None
        }
    }

    /// The breach evaluation at time `now`: if the current window exceeds a
    /// bound the breaker trips and a record is written.
    pub open spec fn evaluated(self, now: u64) -> (MonitorState, Option<ThresholdBreach>) {
        match self.excess() {
            Some((metric, threshold, actual)) => (
                self.tripped(now),
                Some(self.breach_record(metric, threshold, actual, now)),
            ),
            None => (self, None),
        }
    }

    /// The state after one outcome was reported at time `now`, and the
    /// breach record written if the report tripped the breaker.
    pub open spec fn recorded(self, success: bool, amount: i128, now: u64) -> (
        MonitorState,
        Option<ThresholdBreach>,
    ) {
        self.noted(success, amount).evaluated(now)
    }

    /// The state after the successful payouts `amounts` were reported one
    /// by one at time `now`, and the breach records written on the way.
    pub open spec fn recorded_all(self, amounts: Seq<i128>, now: u64) -> (
        MonitorState,
        Seq<ThresholdBreach>,
    )
        decreases amounts.len(),
    {
        if amounts.len() == 0 {
            (self, Seq::empty())
        } else {
            let (before, breaches) = self.recorded_all(amounts.drop_last(), now);
            let (after, breach) = before.recorded(true, amounts.last(), now);
            (
                after,
                match breach {
                    Some(b) => breaches.push(b),
                    None => breaches,
                },
            )
        }
    }
}

/// `base` to the power of `exponent`, or `u64::MAX` where the power does not
/// fit into 64 bits.
pub fn saturating_pow(base: u64, exponent: u64) -> (power: u64)
    ensures
        power == clamp_u64(pow(base as int, exponent as nat)),
{
    if exponent == 0 {
        proof {
            lemma_pow0(base as int);
        }
        return 1;
    }
    if base == 0 {
        proof {
            lemma0_pow(exponent as nat);
        }
        return 0;
    }
    if base == 1 {
        proof {
            lemma1_pow(exponent as nat);
        }
        return 1;
    }
    let mut power: u64 = 1;
    let mut done: u64 = 0;
    proof {
        lemma_pow0(base as int);
    }
    while done < exponent
        invariant
            2 <= base,
            done <= exponent,
            power == pow(base as int, done as nat),
        decreases exponent - done,
    {
        proof {
            assert(pow(base as int, (done + 1) as nat) == base * pow(base as int, done as nat)) by {
                reveal(pow);
            }
            assert(base * power == power * base) by (nonlinear_arith);
        }
        match power.checked_mul(base) {
            Some(next) => {
                power = next;
                done = done + 1;
            },
            None => {
                proof {
                    lemma_pow_increases(base as nat, (done + 1) as nat, exponent as nat);
                }
                return u64::MAX;
            },
        }
    }
    power
}

/// Where the first amount of `amounts` above `cap` is, if there is one.
fn find_over_cap(amounts: &Vec<i128>, cap: i128) -> (found: Option<i128>)
    ensures
        found == first_over_cap(amounts@, cap),
{
    let mut i: usize = 0;
    proof {
        assert(amounts@.skip(0) =~= amounts@);
    }
    while i < amounts.len()
        invariant
            i <= amounts@.len(),
            first_over_cap(amounts@, cap) == first_over_cap(amounts@.skip(i as int), cap),
        decreases amounts@.len() - i,
    {
        proof {
            assert(amounts@.skip(i as int).skip(1) =~= amounts@.skip(i as int + 1));
        }
        if amounts[i] > cap {
            return Some(amounts[i]);
        }
        i = i + 1;
    }
    None
}

/// The circuit breaker of one escrow.
///
/// The configuration it holds has been validated; an invalid one is never
/// taken into use.
pub struct ThresholdMonitor {
    state: MonitorState,
}

impl View for ThresholdMonitor {
    type V = MonitorState;

    closed spec fn view(&self) -> MonitorState {
        self.state
    }
}

impl ThresholdMonitor {
    #[verifier::type_invariant]
    spec fn well_formed(self) -> bool {
        self.state.config.is_valid()
    }

    /// A monitor that has observed nothing yet, with `config` in force. An
    /// invalid configuration is rejected with the reason.
    pub fn new(config: ThresholdConfig) -> (made: Result<ThresholdMonitor, EscrowError>)
        ensures
            made is Ok <==> config.is_valid(),
            match config.fault() {
                None => made matches Ok(monitor) && monitor@ == MonitorState::initial(config),
                Some(reason) => made matches Err(error) && error
                    == (EscrowError::InvalidThresholdConfig { reason }),
            },
    {
        match config.validate() {
            Ok(()) => Ok(
                ThresholdMonitor {
                    state: MonitorState {
                        config,
                        current: WindowMetrics::new(0),
                        previous: WindowMetrics::new(0),
                        last_cooldown_end: 0,
                        cooldown_multiplier_applied: 1,
                    },
                },
            ),
            Err(reason) => Err(EscrowError::InvalidThresholdConfig { reason }),
        }
    }

    /// A monitor that has observed nothing yet, with the default
    /// configuration in force.
    pub fn with_default_config() -> (monitor: ThresholdMonitor)
        ensures
            monitor@ == MonitorState::initial(ThresholdConfig::spec_default()),
    {
        ThresholdMonitor {
            state: MonitorState {
                config: ThresholdConfig::default(),
                current: WindowMetrics::new(0),
                previous: WindowMetrics::new(0),
                last_cooldown_end: 0,
                cooldown_multiplier_applied: 1,
            },
        }
    }

    /// A monitor that continues from a state kept earlier. The state is
    /// taken over as it is, provided its configuration is valid.
    pub fn restore(state: MonitorState) -> (made: Result<ThresholdMonitor, EscrowError>)
        ensures
            made is Ok <==> state.config.is_valid(),
            match state.config.fault() {
                None => made matches Ok(monitor) && monitor@ == state,
                Some(reason) => made matches Err(error) && error
                    == (EscrowError::InvalidThresholdConfig { reason }),
            },
    {
        match state.config.validate() {
            Ok(()) => Ok(ThresholdMonitor { state }),
            Err(reason) => Err(EscrowError::InvalidThresholdConfig { reason }),
        }
    }

    /// Everything the monitor keeps, for reading or for storing.
    pub fn state(&self) -> (state: MonitorState)
        ensures
            state == self@,
            state.config.is_valid(),
    {
        proof {
            use_type_invariant(self);
        }
        self.state
    }

    /// The metrics of the window that is being filled.
    pub fn get_window_metrics(&self) -> (metrics: WindowMetrics)
        ensures
            metrics == self@.current,
    {
        self.state.current
    }

    /// The metrics of the window before the current one.
    pub fn get_previous_window_metrics(&self) -> (metrics: WindowMetrics)
        ensures
            metrics == self@.previous,
    {
        self.state.previous
    }

    /// Puts `config` in force. An invalid configuration is rejected as a
    /// whole and the one in force stays; the metrics are kept either way.
    pub fn configure(&mut self, config: ThresholdConfig) -> (done: Result<(), EscrowError>)
        ensures
            done is Ok <==> config.is_valid(),
            match config.fault() {
                None => done == Ok::<(), EscrowError>(()) && final(self)@ == old(self)@.with_config(
                    config,
                ),
                Some(reason) => done == Err::<(), EscrowError>(
                    EscrowError::InvalidThresholdConfig { reason },
                ) && final(self)@ == old(self)@,
            },
    {
        match config.validate() {
            Ok(()) => {
                self.state = MonitorState { config, ..self.state };
                Ok(())
            },
            Err(reason) => Err(EscrowError::InvalidThresholdConfig { reason }),
        }
    }

    /// Rolls the window if it has expired at time `now`: the current window
    /// becomes the previous one and a fresh one starts at `now`. Before the
    /// window has lasted its full length nothing changes.
    pub fn roll_window(&mut self, now: u64)
        ensures
            final(self)@ == old(self)@.rolled(now),
    {
        proof {
            use_type_invariant(&*self);
        }
        let start: u64 = self.state.current.window_start;
        if now >= start && now - start >= self.state.config.time_window_secs {
            self.state = MonitorState {
                current: WindowMetrics::new(now),
                previous: self.state.current,
                ..self.state
            };
        }
    }

    /// Decides at time `now` whether one payout of `amount` may proceed.
    ///
    /// The window is rolled first. While the breaker is open the payout is
    /// refused with `CooldownActive`. An amount above the single-payout cap
    /// is refused with `ThresholdBreached`; this breach is recorded and
    /// opens the breaker although the payout never executes.
    pub fn check_admission(&mut self, amount: i128, now: u64) -> (decision: Result<(), Refusal>)
        ensures
            final(self)@ == old(self)@.single_admission(amount, now).0,
            decision == old(self)@.single_admission(amount, now).1,
    {
        let over_cap: Option<i128> = if amount > self.state.config.max_single_payout {
            Some(amount)
        } else {
            None
        };
        self.decide(over_cap, now)
    }

    /// Decides at time `now` whether a batch with the line items `amounts`
    /// may proceed. The batch is judged like a single payout of its first
    /// line item above the cap, if it has one.
    pub fn check_batch_admission(&mut self, amounts: &Vec<i128>, now: u64) -> (decision: Result<
        (),
        Refusal,
    >)
        ensures
            final(self)@ == old(self)@.batch_admission(amounts@, now).0,
            decision == old(self)@.batch_admission(amounts@, now).1,
    {
        let over_cap: Option<i128> = find_over_cap(amounts, self.state.config.max_single_payout);
        self.decide(over_cap, now)
    }

    fn decide(&mut self, over_cap: Option<i128>, now: u64) -> (decision: Result<(), Refusal>)
        ensures
            final(self)@ == old(self)@.admission(over_cap, now).0,
            decision == old(self)@.admission(over_cap, now).1,
    {
        self.roll_window(now);
        if now < self.state.last_cooldown_end {
            return Err(
                Refusal {
                    error: EscrowError::CooldownActive { until: self.state.last_cooldown_end },
                    breach: None,
                },
            );
        }
        match over_cap {
            Some(amount) => {
                let cap: i128 = self.state.config.max_single_payout;
                let breach = self.trip(BreachMetric::SinglePayout, cap, amount, now);
                Err(
                    Refusal {
                        error: EscrowError::ThresholdBreached {
                            metric: BreachMetric::SinglePayout,
                            threshold: cap,
                            actual: amount,
                        },
                        breach: Some(breach),
                    },
                )
            },
            None => Ok(()),
        }
    }

    /// Counts a breach at time `now` and opens the breaker.
    fn trip(&mut self, metric: BreachMetric, threshold: i128, actual: i128, now: u64) -> (breach:
        ThresholdBreach)
        ensures
            final(self)@ == old(self)@.tripped(now),
            breach == old(self)@.breach_record(metric, threshold, actual, now),
    {
        proof {
            use_type_invariant(&*self);
        }
        let exponent: u64 = self.state.previous.breach_count as u64
            + self.state.current.breach_count as u64;
        let factor: u64 = saturating_pow(self.state.config.cooldown_multiplier as u64, exponent);
        let period: u64 = self.state.config.cooldown_period_secs;
        assert(period * factor <= u64::MAX * u64::MAX) by (nonlinear_arith)
            requires
                period <= u64::MAX,
                factor <= u64::MAX,
        ;
        let secs: u128 = period as u128 * factor as u128;
        let end: u128 = now as u128 + secs;
        let last_cooldown_end: u64 = if end > u64::MAX as u128 {
            u64::MAX
        } else {
            end as u64
        };
        let count: u32 = if self.state.current.breach_count < u32::MAX {
            self.state.current.breach_count + 1
        } else {
            self.state.current.breach_count
        };
        proof {
            let exact = self.state.backoff_factor();
            lemma_pow_positive(
                self.state.config.cooldown_multiplier as int,
                self.state.horizon_breaches(),
            );
            assert(factor == clamp_u64(exact));
            assert(secs == period * factor);
            if exact > u64::MAX {
                assert(period * exact >= period * factor) by (nonlinear_arith)
                    requires
                        exact >= factor,
                        period >= 0,
                ;
                assert(period * factor >= factor) by (nonlinear_arith)
                    requires
                        period >= 1,
                        factor >= 0,
                ;
            }
            assert(last_cooldown_end == clamp_u64(now + period * exact));
        }
        self.state = MonitorState {
            current: WindowMetrics { breach_count: count, ..self.state.current },
            last_cooldown_end,
            cooldown_multiplier_applied: factor,
            ..self.state
        };
        ThresholdBreach {
            metric_type: metric,
            threshold_value: threshold,
            actual_value: actual,
            timestamp: now,
            breach_count: count,
        }
    }

    /// Reports the outcome of one operation at time `now`: a success with
    /// the amount that flowed out, or a failure.
    ///
    /// The outcome is counted in the current window, then the window is
    /// held against the bounds. If the failure count or the total outflow
    /// exceeds its bound the breaker trips and the breach record is
    /// returned.
    pub fn record_outcome(&mut self, success: bool, amount: i128, now: u64) -> (breach: Option<
        ThresholdBreach,
    >)
        ensures
            final(self)@ == old(self)@.recorded(success, amount, now).0,
            breach == old(self)@.recorded(success, amount, now).1,
    {
        proof {
            use_type_invariant(&*self);
        }
        let current: WindowMetrics = self.state.current;
        if success {
            let total: i128 = match current.total_outflow.checked_add(amount) {
                Some(sum) => sum,
                None => if amount > 0 {
                    i128::MAX
                } else {
                    i128::MIN
                },
            };
            self.state = MonitorState {
                current: WindowMetrics {
                    success_count: if current.success_count < u32::MAX {
                        current.success_count + 1
                    } else {
                        current.success_count
                    },
                    total_outflow: total,
                    max_single_outflow: if amount > current.max_single_outflow {
                        amount
                    } else {
                        current.max_single_outflow
                    },
                    ..current
                },
                ..self.state
            };
        } else {
            self.state = MonitorState {
                current: WindowMetrics {
                    failure_count: if current.failure_count < u32::MAX {
                        current.failure_count + 1
                    } else {
                        current.failure_count
                    },
                    ..current
                },
                ..self.state
            };
        }
        if self.state.current.failure_count > self.state.config.failure_rate_threshold {
            let threshold: i128 = self.state.config.failure_rate_threshold as i128;
            let actual: i128 = self.state.current.failure_count as i128;
            Some(self.trip(BreachMetric::FailureRate, threshold, actual, now))
        } else if self.state.current.total_outflow > self.state.config.outflow_volume_threshold {
            let threshold: i128 = self.state.config.outflow_volume_threshold;
            let actual: i128 = self.state.current.total_outflow;
            Some(self.trip(BreachMetric::OutflowVolume, threshold, actual, now))
        } else {
            None
        }
    }

    /// Reports the successful payouts `amounts` one by one at time `now`
    /// and returns the breach records written on the way, in order.
    pub fn record_payouts(&mut self, amounts: &Vec<i128>, now: u64) -> (breaches: Vec<
        ThresholdBreach,
    >)
        ensures
            final(self)@ == old(self)@.recorded_all(amounts@, now).0,
            breaches@ == old(self)@.recorded_all(amounts@, now).1,
    {
        let mut breaches: Vec<ThresholdBreach> = Vec::new();
        let mut i: usize = 0;
        while i < amounts.len()
            invariant
                i <= amounts@.len(),
                self@ == old(self)@.recorded_all(amounts@.take(i as int), now).0,
                breaches@ == old(self)@.recorded_all(amounts@.take(i as int), now).1,
            decreases amounts@.len() - i,
        {
            proof {
                let next = amounts@.take(i as int + 1);
                assert(next.drop_last() =~= amounts@.take(i as int));
                assert(next.last() == amounts@[i as int]);
            }
            match self.record_outcome(true, amounts[i], now) {
                Some(breach) => {
                    breaches.push(breach);
                },
                None => {},
            }
            i = i + 1;
        }
        proof {
            assert(amounts@.take(amounts@.len() as int) =~= amounts@);
        }
        breaches
    }
}

/// The numeric code under which a monitor-related error is reported, and
/// `None` for every other error.
pub fn error_code(error: &EscrowError) -> (code: Option<u32>)
    ensures
        code == (match *error {
            EscrowError::ThresholdBreached { .. } => Some(ERR_THRESHOLD_BREACHED),
            EscrowError::InvalidThresholdConfig { .. } => Some(ERR_INVALID_THRESHOLD_CONFIG),
            EscrowError::CooldownActive { .. } => Some(ERR_COOLDOWN_ACTIVE),
            _ => None,
        }),
{
    match error {
        EscrowError::ThresholdBreached { .. } => Some(ERR_THRESHOLD_BREACHED),
        EscrowError::InvalidThresholdConfig { .. } => Some(ERR_INVALID_THRESHOLD_CONFIG),
        EscrowError::CooldownActive { .. } => Some(ERR_COOLDOWN_ACTIVE),
        _ => None,
    }
}

/// Window rollover is a function of elapsed time alone. Before the window
/// has lasted its full length a call changes nothing; at or after that
/// point the current window becomes the previous one, unchanged, and a fresh
/// window starts at the time of the call.
pub proof fn lemma_window_rolls_only_at_expiry(state: MonitorState, now: u64)
    ensures
        now - state.current.window_start < state.config.time_window_secs ==> state.rolled(now)
            == state,
        now - state.current.window_start >= state.config.time_window_secs ==> state.rolled(now)
            == (MonitorState {
            current: WindowMetrics::spec_new(now),
            previous: state.current,
            ..state
        }),
{
}

/// What was accumulated in the current window shows up as the previous
/// window only through an admission check made at or after expiry. No
/// admission check before expiry, and no report of an outcome at any time,
/// changes the previous window.
pub proof fn lemma_previous_window_is_history(
    state: MonitorState,
    over_cap: Option<i128>,
    success: bool,
    amount: i128,
    now: u64,
)
    ensures
        !state.window_expired(now) ==> state.admission(over_cap, now).0.previous == state.previous,
        state.window_expired(now) ==> state.admission(over_cap, now).0.previous == state.current,
        state.recorded(success, amount, now).0.previous == state.previous,
{
}

/// Reporting a whole batch of payouts changes neither the previous window
/// nor the configuration, and starts no new window.
pub proof fn lemma_batch_report_keeps_window(state: MonitorState, amounts: Seq<i128>, now: u64)
    ensures
        state.recorded_all(amounts, now).0.previous == state.previous,
        state.recorded_all(amounts, now).0.config == state.config,
        state.recorded_all(amounts, now).0.current.window_start == state.current.window_start,
        state.recorded_all(amounts, now).1.len() <= amounts.len(),
    decreases amounts.len(),
{
    if amounts.len() > 0 {
        lemma_batch_report_keeps_window(state, amounts.drop_last(), now);
    }
}

/// While the breaker is open every operation is refused with
/// `CooldownActive`, whatever it asks for, and no breach is written. Once
/// the clock has reached the end of the cooldown an operation within the cap
/// is admitted again without any further step.
pub proof fn lemma_breaker_follows_the_clock(state: MonitorState, over_cap: Option<i128>, now: u64)
    ensures
        now < state.last_cooldown_end ==> state.admission(over_cap, now) == (
            state.rolled(now),
            Err::<(), Refusal>(
                Refusal {
                    error: EscrowError::CooldownActive { until: state.last_cooldown_end },
                    breach: None,
                },
            ),
        ),
        now >= state.last_cooldown_end && over_cap is None ==> state.admission(over_cap, now) == (
            state.rolled(now),
            Ok::<(), Refusal>(()),
        ),
        now >= state.last_cooldown_end && over_cap is Some ==> state.admission(over_cap, now).1
            is Err && state.admission(over_cap, now).0 == state.rolled(now).tripped(now),
{
}

/// The first breach after two quiet windows opens the breaker for exactly
/// the configured cooldown period.
pub proof fn lemma_first_breach_cooldown(state: MonitorState, now: u64)
    requires
        state.horizon_breaches() == 0,
    ensures
        state.cooldown_secs() == state.config.cooldown_period_secs,
        state.tripped(now).last_cooldown_end == clamp_u64(
            now + state.config.cooldown_period_secs,
        ),
        state.tripped(now).cooldown_multiplier_applied == 1,
{
    lemma_pow0(state.config.cooldown_multiplier as int);
    assert(state.config.cooldown_period_secs * 1 == state.config.cooldown_period_secs);
}

/// Every breach that is counted stretches the next cooldown by the
/// configured multiplier.
pub proof fn lemma_breach_stretches_next_cooldown(state: MonitorState, now: u64)
    requires
        state.current.breach_count < u32::MAX,
    ensures
        state.tripped(now).horizon_breaches() == state.horizon_breaches() + 1,
        state.tripped(now).cooldown_secs() == state.config.cooldown_multiplier
            * state.cooldown_secs(),
{
    let m = state.config.cooldown_multiplier as int;
    let k = state.horizon_breaches();
    let p = state.config.cooldown_period_secs as int;
    assert(pow(m, (k + 1) as nat) == m * pow(m, k)) by {
        reveal(pow);
    }
    assert(p * (m * pow(m, k)) == m * (p * pow(m, k))) by (nonlinear_arith);
}

/// With a multiplier of at least two, more breaches in the two retained
/// windows mean a strictly longer cooldown.
pub proof fn lemma_cooldown_grows_with_breaches(fewer: MonitorState, more: MonitorState)
    requires
        fewer.config == more.config,
        fewer.config.is_valid(),
        fewer.config.cooldown_multiplier >= 2,
        fewer.horizon_breaches() < more.horizon_breaches(),
    ensures
        fewer.cooldown_secs() < more.cooldown_secs(),
{
    let m = fewer.config.cooldown_multiplier as nat;
    let p = fewer.config.cooldown_period_secs as int;
    lemma_pow_strictly_increases(m, fewer.horizon_breaches(), more.horizon_breaches());
    let a = pow(m as int, fewer.horizon_breaches());
    let b = pow(m as int, more.horizon_breaches());
    assert(p * a < p * b) by (nonlinear_arith)
        requires
            p > 0,
            a < b,
    ;
}

/// The breaker opens exactly when a breach is recorded. A decision or a
/// report that writes no breach record leaves the end of the cooldown where
/// it was; one that writes a record counts the breach in the current window
/// and sets the end of the cooldown to the time of the call plus the
/// cooldown length that was due.
pub proof fn lemma_breaker_opens_exactly_on_breach(
    state: MonitorState,
    over_cap: Option<i128>,
    success: bool,
    amount: i128,
    now: u64,
)
    ensures
        ({
            let (decided, decision) = state.admission(over_cap, now);
            let breach = match decision {
                Ok(()) => None,
                Err(refusal) => refusal.breach,
            };
            &&& breach is None ==> decided.last_cooldown_end == state.last_cooldown_end
                && decided.current.breach_count == state.rolled(now).current.breach_count
            &&& breach is Some ==> decided.last_cooldown_end == clamp_u64(
                now + state.rolled(now).cooldown_secs(),
            ) && decided.current.breach_count == bump(state.rolled(now).current.breach_count)
                && breach->0.breach_count == decided.current.breach_count && breach->0.timestamp
                == now
        }),
        ({
            let (reported, breach) = state.recorded(success, amount, now);
            &&& breach is None ==> reported.last_cooldown_end == state.last_cooldown_end
                && reported.current.breach_count == state.current.breach_count
            &&& breach is Some ==> reported.last_cooldown_end == clamp_u64(
                now + state.cooldown_secs(),
            ) && reported.current.breach_count == bump(state.current.breach_count)
                && breach->0.breach_count == reported.current.breach_count && breach->0.timestamp
                == now
        }),
{
}

/// No amount of a batch is above the cap exactly when the batch has no
/// first amount above the cap; and if it has one, that amount is above the
/// cap.
pub proof fn lemma_first_over_cap(amounts: Seq<i128>, cap: i128)
    ensures
        first_over_cap(amounts, cap) is None <==> forall|i: int|
            0 <= i < amounts.len() ==> amounts[i] <= cap,
        first_over_cap(amounts, cap) matches Some(amount) ==> amount > cap && amounts.contains(
            amount,
        ),
    decreases amounts.len(),
{
    if amounts.len() > 0 {
        let rest = amounts.skip(1);
        lemma_first_over_cap(rest, cap);
        if amounts[0] <= cap {
            assert forall|i: int| 0 <= i < amounts.len() && (forall|j: int|
                0 <= j < rest.len() ==> rest[j] <= cap) implies amounts[i] <= cap by {
                if i > 0 {
                    assert(amounts[i] == rest[i - 1]);
                }
            }
            if first_over_cap(rest, cap) is None {
            } else {
                let amount = first_over_cap(rest, cap)->0;
                let j = choose|j: int| 0 <= j < rest.len() && rest[j] == amount;
                assert(amounts[j + 1] == amount);
            }
            if forall|i: int| 0 <= i < amounts.len() ==> amounts[i] <= cap {
                assert forall|j: int| 0 <= j < rest.len() implies rest[j] <= cap by {
                    assert(rest[j] == amounts[j + 1]);
                }
            }
        } else {
            assert(amounts[0] == amounts[0]);
        }
    }
}

} // verus!
