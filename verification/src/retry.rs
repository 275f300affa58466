//! Typed retries: delays between attempts, deadlines, and the decision after each
//! attempt.
//!
//! Delays that grow by a fractional factor, and jitter, are computed by the caller and
//! enter here as spans; a span that could not be computed is out of range.

use crate::execution::{
    is_timer_unavailable_message, says_timer_unavailable, AbortPolicy,
    ExecutorStopReason, PanicSource, StopCauseSummary, TaskExit, TaskFailure,
};
use crate::execution_core::JoinFailure;
use crate::ids::{is_random_uuid, AttemptId, ExecutionId, TaskSpecId};
use crate::text;
use crate::time::{Duration, Instant, MAX_NANOS};
use vstd::prelude::*;
use vstd::string::StringExecFns;

verus! {

/// The most attempts that can be configured.
pub const MAX_ATTEMPTS: u32 = 1_000_000;

/// Exponential delays between attempts.
#[derive(Debug)]
pub struct ExponentialBackoff {
    /// The first delay.
    pub base: Duration,
    /// The longest delay.
    pub cap: Duration,
    /// Whether the factor of growth is finite and at least one.
    pub multiplier_valid: bool,
    /// The longest delay as a count of seconds gives it back, if it is in range.
    pub longest: Option<Duration>,
    /// How far the delay before each retry grew, as a count of seconds gives it back; what
    /// is missing is out of range.
    pub grown: Vec<Option<Duration>>,
}

/// The delays between failed attempts.
#[derive(Debug)]
#[non_exhaustive]
pub enum Backoff {
    Immediate,
    Fixed(Duration),
    Explicit(Vec<Duration>),
    Exponential(ExponentialBackoff),
}

impl ExponentialBackoff {
    /// The delay before retry `i`, if it is in range: what it grew to, up to the longest.
    pub open spec fn delay(&self, i: int) -> Option<nat> {
        if i < self.grown.len() && self.grown@[i] is Some {
            let grown = self.grown@[i]->0@;
            match self.longest {
                Some(longest) => Some(
                    if longest@ < grown {
                        longest@
                    } else {
                        grown
                    },
                ),
                None => Some(grown),
            }
        } else {
            None
        }
    }
}

impl Backoff {
    /// Always the same delay.
    pub fn fixed(delay: Duration) -> (backoff: Self)
        ensures
            backoff == Backoff::Fixed(delay),
    {
        Backoff::Fixed(delay)
    }

    /// A delay for each retry.
    pub fn explicit(delays: Vec<Duration>) -> (backoff: Self)
        ensures
            backoff == Backoff::Explicit(delays),
    {
        Backoff::Explicit(delays)
    }

    /// Delays that grow up to a cap.
    pub fn exponential(exponential: ExponentialBackoff) -> (backoff: Self)
        ensures
            backoff == Backoff::Exponential(exponential),
    {
        Backoff::Exponential(exponential)
    }

    /// The delay before retry `i`, if it is in range.
    pub open spec fn base_delay(&self, i: int) -> Option<nat> {
        match *self {
            Backoff::Immediate => Some(0),
            Backoff::Fixed(delay) => Some(delay@),
            Backoff::Explicit(delays) => Some(delays@[i]@),
            Backoff::Exponential(exponential) => exponential.delay(i),
        }
    }

    /// What delays for `count` retries are rejected for, if they are.
    pub open spec fn error(&self, count: nat) -> Option<RetryBuildError> {
        match *self {
            Backoff::Immediate => None,
            Backoff::Fixed(_) => None,
            Backoff::Explicit(delays) => if delays.len() != count {
                Some(
                    RetryBuildError::DelayCountMismatch {
                        expected: count as usize,
                        actual: delays.len(),
                    },
                )
            } else {
                None
            },
            Backoff::Exponential(exponential) => if !exponential.multiplier_valid {
                Some(RetryBuildError::InvalidBackoffMultiplier)
            } else if exponential.cap@ < exponential.base@ {
                Some(RetryBuildError::BackoffCapBelowBase)
            } else if exists|i: int| 0 <= i < count && #[trigger] self.base_delay(i) is None {
                Some(RetryBuildError::DurationOverflow)
            } else {
                None
            },
        }
    }

    /// The longest delay after jitter, if there is a bound.
    pub open spec fn jitter_cap(&self) -> Option<Duration> {
        match *self {
            Backoff::Exponential(exponential) => Some(exponential.cap),
            _ => None,
        }
    }

    /// The delays before the retries, unless they are invalid.
    pub fn base_delays(&self, count: usize) -> (result: Result<Vec<Duration>, RetryBuildError>)
        ensures
            match self.error(count as nat) {
                Some(error) => result == Err::<Vec<Duration>, RetryBuildError>(error),
                None => {
                    &&& result is Ok
                    &&& result->Ok_0.len() == count
                    &&& forall|i: int|
                        0 <= i < count ==> Some((#[trigger] result->Ok_0@[i])@) == self.base_delay(i)
                },
            },
    {
        match self {
            Backoff::Immediate => Ok(repeated(Duration::zero(), count)),
            Backoff::Fixed(delay) => Ok(repeated(*delay, count)),
            Backoff::Explicit(delays) => {
                if delays.len() != count {
                    return Err(
                        RetryBuildError::DelayCountMismatch {
                            expected: count,
                            actual: delays.len(),
                        },
                    );
                }
                let copy = delays.clone();
                assert(copy@ =~= delays@);
                Ok(copy)
            },
            Backoff::Exponential(exponential) => {
                if !exponential.multiplier_valid {
                    return Err(RetryBuildError::InvalidBackoffMultiplier);
                }
                if exponential.cap.as_nanos() < exponential.base.as_nanos() {
                    return Err(RetryBuildError::BackoffCapBelowBase);
                }
                let mut delays: Vec<Duration> = Vec::new();
                let mut at: usize = 0;
                while at < count
                    invariant
                        *self == Backoff::Exponential(*exponential),
                        exponential.multiplier_valid,
                        exponential.cap@ >= exponential.base@,
                        at <= count,
                        delays.len() == at,
                        forall|i: int|
                            0 <= i < at ==> Some((#[trigger] delays@[i])@) == self.base_delay(i),
                    decreases count - at,
                {
                    let delay: Option<Duration> = if at < exponential.grown.len() {
                        exponential.grown[at]
                    } else {
                        None
                    };
                    match delay {
                        Some(delay) => {
                            let delay: Duration = match exponential.longest {
                                Some(longest) => {
                                    if longest.as_nanos() < delay.as_nanos() {
                                        longest
                                    } else {
                                        delay
                                    }
                                },
                                None => delay,
                            };
                            delays.push(delay);
                        },
                        None => {
                            assert(self.base_delay(at as int) is None);
                            return Err(RetryBuildError::DurationOverflow);
                        },
                    }
                    at = at + 1;
                }
                proof {
                    assert forall|i: int| 0 <= i < count implies #[trigger] self.base_delay(
                        i,
                    ) is Some by {
                        assert(Some(delays@[i]@) == self.base_delay(i));
                    }
                }
                Ok(delays)
            },
        }
    }
}

fn repeated(delay: Duration, count: usize) -> (delays: Vec<Duration>)
    ensures
        delays.len() == count,
        forall|i: int| 0 <= i < count ==> #[trigger] delays@[i] == delay,
{
    let mut delays: Vec<Duration> = Vec::new();
    let mut at: usize = 0;
    while at < count
        invariant
            at <= count,
            delays.len() == at,
            forall|i: int| 0 <= i < at ==> #[trigger] delays@[i] == delay,
        decreases count - at,
    {
        delays.push(delay);
        at = at + 1;
    }
    delays
}

/// One step of the pseudo-random stream behind jitter.
pub open spec fn jitter_step(state: u64) -> u64 {
    let a = state ^ (state << 13);
    let b = a ^ (a >> 7);
    b ^ (b << 17)
}

/// The state of the stream after `n` steps.
pub open spec fn jitter_state(seed: u64, n: nat) -> u64
    decreases n,
{
    if n == 0 {
        seed
    } else {
        jitter_step(jitter_state(seed, (n - 1) as nat))
    }
}

/// One step of the pseudo-random stream behind jitter.
pub fn next_jitter(state: u64) -> (next: u64)
    ensures
        next == jitter_step(state),
        ({
            let a = state ^ (state << 13);
            let b = a ^ (a >> 7);
            next == b ^ (b << 17)
        }),
{
    let a: u64 = state ^ (state << 13);
    let b: u64 = a ^ (a >> 7);
    b ^ (b << 17)
}

/// The first `count` states of the stream of a seed, one for each delay. The same
/// seed always gives the same stream.
pub fn jitter_stream(seed: u64, count: usize) -> (stream: Vec<u64>)
    ensures
        stream.len() == count,
        forall|i: int| 0 <= i < count ==> #[trigger] stream@[i] == jitter_state(seed, (i + 1) as nat),
{
    let mut stream: Vec<u64> = Vec::new();
    let mut state: u64 = seed;
    let mut at: usize = 0;
    while at < count
        invariant
            at <= count,
            stream.len() == at,
            state == jitter_state(seed, at as nat),
            forall|i: int|
                0 <= i < at ==> #[trigger] stream@[i] == jitter_state(seed, (i + 1) as nat),
        decreases count - at,
    {
        state = next_jitter(state);
        stream.push(state);
        at = at + 1;
    }
    stream
}

/// The state for one position of a recurring schedule, from the seed and the position alone.
pub fn jitter_at(seed: u64, stream_index: u64) -> (state: u64)
    ensures
        state == jitter_step(seed ^ stream_index.wrapping_mul(0x9E37_79B9_7F4A_7C15)),
{
    next_jitter(seed ^ stream_index.wrapping_mul(0x9E37_79B9_7F4A_7C15))
}

/// Why retried work cannot be built.
#[derive(Clone, Copy, Debug, Eq, PartialEq, Structural)]
#[non_exhaustive]
pub enum RetryBuildError {
    InvalidAttemptCount,
    AttemptCountTooLarge,
    RetryPolicyRequired,
    DelayCountMismatch { expected: usize, actual: usize },
    InvalidBackoffMultiplier,
    BackoffCapBelowBase,
    InvalidJitterRatio,
    ZeroAttemptTimeout,
    ConflictingDeadline,
    DurationOverflow,
}

impl RetryBuildError {
    /// Human-readable description.
    pub fn message(&self) -> (message: String)
        ensures
            match *self {
                RetryBuildError::InvalidAttemptCount => message@
                    == "max_attempts must be at least one"@,
                RetryBuildError::AttemptCountTooLarge => message@
                    == "max_attempts exceeds the SDK limit"@,
                RetryBuildError::RetryPolicyRequired => message@
                    == "multiple attempts require retry_if or an explicit retry_all_errors acknowledgement"@,
                RetryBuildError::DelayCountMismatch { expected, actual } => message@
                    == "retry delay count mismatch: expected "@ + text::decimal(expected as nat)
                    + ", got "@ + text::decimal(actual as nat),
                RetryBuildError::InvalidBackoffMultiplier => message@
                    == "exponential multiplier must be finite and at least one"@,
                RetryBuildError::BackoffCapBelowBase => message@
                    == "exponential backoff cap must not be below its base"@,
                RetryBuildError::InvalidJitterRatio => message@
                    == "jitter ratio must be finite and between zero and one"@,
                RetryBuildError::ZeroAttemptTimeout => message@
                    == "attempt timeout must be greater than zero"@,
                RetryBuildError::ConflictingDeadline => message@
                    == "deadline and overall_timeout are mutually exclusive"@,
                RetryBuildError::DurationOverflow => message@
                    == "retry duration arithmetic overflowed"@,
            },
    {
        match self {
            RetryBuildError::InvalidAttemptCount => {
                String::from_str("max_attempts must be at least one")
            },
            RetryBuildError::AttemptCountTooLarge => {
                String::from_str("max_attempts exceeds the SDK limit")
            },
            RetryBuildError::RetryPolicyRequired => String::from_str(
                "multiple attempts require retry_if or an explicit retry_all_errors acknowledgement",
            ),
            RetryBuildError::DelayCountMismatch { expected, actual } => {
                let mut message = String::from_str("retry delay count mismatch: expected ");
                text::append_decimal(&mut message, *expected as u64);
                message.append(", got ");
                text::append_decimal(&mut message, *actual as u64);
                message
            },
            RetryBuildError::InvalidBackoffMultiplier => {
                String::from_str("exponential multiplier must be finite and at least one")
            },
            RetryBuildError::BackoffCapBelowBase => {
                String::from_str("exponential backoff cap must not be below its base")
            },
            RetryBuildError::InvalidJitterRatio => {
                String::from_str("jitter ratio must be finite and between zero and one")
            },
            RetryBuildError::ZeroAttemptTimeout => {
                String::from_str("attempt timeout must be greater than zero")
            },
            RetryBuildError::ConflictingDeadline => {
                String::from_str("deadline and overall_timeout are mutually exclusive")
            },
            RetryBuildError::DurationOverflow => {
                String::from_str("retry duration arithmetic overflowed")
            },
        }
    }
}

/// Delays after jitter.
#[derive(Debug)]
pub struct Jitter {
    /// The seed of the pseudo-random stream.
    pub seed: u64,
    /// Whether the proportion is finite and between zero and one.
    pub ratio_valid: bool,
    /// The delay before each retry after jitter; what is missing is out of range.
    pub jittered: Vec<Option<Duration>>,
}

impl Jitter {
    /// The delay before retry `i` after jitter, if it is in range.
    pub open spec fn jittered_delay(&self, i: int, cap: Option<Duration>) -> Option<nat> {
        if i < self.jittered.len() && self.jittered@[i] is Some {
            let delay = self.jittered@[i]->0@;
            match cap {
                Some(cap) => Some(
                    if cap@ < delay {
                        cap@
                    } else {
                        delay
                    },
                ),
                None => Some(delay),
            }
        } else {
            None
        }
    }

    /// The delays before the retries, bounded by the cap.
    fn apply(&self, count: usize, cap: Option<Duration>) -> (result: Result<
        Vec<Duration>,
        RetryBuildError,
    >)
        ensures
            ({
                let missing = exists|i: int|
                    0 <= i < count && #[trigger] self.jittered_delay(i, cap) is None;
                match result {
                    Ok(delays) => {
                        &&& self.ratio_valid
                        &&& !missing
                        &&& delays.len() == count
                        &&& forall|i: int|
                            0 <= i < count ==> Some((#[trigger] delays@[i])@)
                                == self.jittered_delay(i, cap)
                    },
                    Err(RetryBuildError::InvalidJitterRatio) => !self.ratio_valid,
                    Err(RetryBuildError::DurationOverflow) => self.ratio_valid && missing,
                    Err(_) => false,
                }
            }),
    {
        if !self.ratio_valid {
            return Err(RetryBuildError::InvalidJitterRatio);
        }
        let mut delays: Vec<Duration> = Vec::new();
        let mut at: usize = 0;
        while at < count
            invariant
                self.ratio_valid,
                at <= count,
                delays.len() == at,
                forall|i: int|
                    0 <= i < at ==> Some((#[trigger] delays@[i])@) == self.jittered_delay(i, cap),
            decreases count - at,
        {
            let delay: Option<Duration> = if at < self.jittered.len() {
                self.jittered[at]
            } else {
                None
            };
            match delay {
                Some(delay) => {
                    let bounded: Duration = match cap {
                        Some(cap) => {
                            if cap.as_nanos() < delay.as_nanos() {
                                cap
                            } else {
                                delay
                            }
                        },
                        None => delay,
                    };
                    delays.push(bounded);
                },
                None => {
                    assert(self.jittered_delay(at as int, cap) is None);
                    return Err(RetryBuildError::DurationOverflow);
                },
            }
            at = at + 1;
        }
        proof {
            assert forall|i: int| 0 <= i < count implies #[trigger] self.jittered_delay(
                i,
                cap,
            ) is Some by {
                assert(Some(delays@[i]@) == self.jittered_delay(i, cap));
            }
        }
        Ok(delays)
    }
}

/// The validated delays between attempts.
#[derive(Debug)]
pub struct DelayPlan {
    pub delays: Vec<Duration>,
}

/// The delay before retry `i`, if it is in range.
pub open spec fn planned_delay(backoff: Backoff, jitter: Option<Jitter>, i: int) -> Option<nat> {
    match jitter {
        Some(jitter) => jitter.jittered_delay(i, backoff.jitter_cap()),
        None => backoff.base_delay(i),
    }
}

/// What delays are rejected for, if they are: first for themselves, then for jitter.
pub open spec fn plan_error(backoff: Backoff, count: nat, jitter: Option<Jitter>) -> Option<
    RetryBuildError,
> {
    if backoff.error(count) is Some {
        backoff.error(count)
    } else if jitter is Some && !jitter->0.ratio_valid {
        Some(RetryBuildError::InvalidJitterRatio)
    } else if jitter is Some && exists|i: int|
        0 <= i < count && #[trigger] jitter->0.jittered_delay(i, backoff.jitter_cap()) is None {
        Some(RetryBuildError::DurationOverflow)
    } else {
        None
    }
}

impl DelayPlan {
    /// Validates the delays between `retry_count + 1` attempts.
    pub fn build(backoff: &Backoff, retry_count: usize, jitter: &Option<Jitter>) -> (result: Result<
        Self,
        RetryBuildError,
    >)
        ensures
            match plan_error(*backoff, retry_count as nat, *jitter) {
                Some(error) => result == Err::<Self, RetryBuildError>(error),
                None => {
                    &&& result is Ok
                    &&& result->Ok_0.delays.len() == retry_count
                    &&& forall|i: int|
                        0 <= i < retry_count ==> Some((#[trigger] result->Ok_0.delays@[i])@)
                            == planned_delay(*backoff, *jitter, i)
                },
            },
    {
        let base: Vec<Duration> = match backoff.base_delays(retry_count) {
            Ok(base) => base,
            Err(error) => {
                return Err(error);
            },
        };
        match jitter {
            Some(jitter) => {
                let cap: Option<Duration> = match backoff {
                    Backoff::Exponential(exponential) => Some(exponential.cap),
                    _ => None,
                };
                match jitter.apply(retry_count, cap) {
                    Ok(delays) => Ok(DelayPlan { delays }),
                    Err(error) => Err(error),
                }
            },
            None => Ok(DelayPlan { delays: base }),
        }
    }
}

/// When retried work must be over.
#[derive(Clone, Copy, Debug, Eq, PartialEq, Structural)]
pub enum DeadlineConfig {
    Unbounded,
    Absolute(Instant),
    Overall(Duration),
}

/// Validated retried work: `F` makes an attempt, `P` decides whether to retry.
pub struct RetrySpec<F, P> {
    pub id: TaskSpecId,
    pub factory: F,
    pub predicate: Option<P>,
    pub retry_all_errors: bool,
    pub max_attempts: u32,
    pub delays: DelayPlan,
    pub attempt_timeout: Option<Duration>,
    pub retry_timed_out_attempts: bool,
    pub deadline: DeadlineConfig,
    pub tag: Option<String>,
    pub abort_policy: AbortPolicy,
}

impl<F, P> RetrySpec<F, P> {
    /// There is an attempt, a delay between any two, and a policy if there are two.
    pub open spec fn wf(&self) -> bool {
        &&& 1 <= self.max_attempts <= MAX_ATTEMPTS
        &&& self.delays.delays.len() == self.max_attempts - 1
        &&& self.max_attempts > 1 ==> self.predicate is Some || self.retry_all_errors
    }

    /// The identity of the definition.
    pub fn id(&self) -> (id: TaskSpecId)
        ensures
            id == self.id,
    {
        self.id
    }

    /// When work that was accepted at `accepted_at` must be over. A point out of range
    /// is an error.
    pub fn deadline_at(&self, accepted_at: Instant) -> (result: Result<Option<Instant>, ()>)
        ensures
            match self.deadline {
                DeadlineConfig::Unbounded => result == Ok::<Option<Instant>, ()>(None),
                DeadlineConfig::Absolute(deadline) => result == Ok::<Option<Instant>, ()>(
                    Some(deadline),
                ),
                DeadlineConfig::Overall(duration) => if accepted_at@ + duration@ <= MAX_NANOS {
                    &&& result matches Ok(Some(deadline))
                    &&& deadline@ == accepted_at@ + duration@
                } else {
                    result is Err
                },
            },
    {
        match self.deadline {
            DeadlineConfig::Unbounded => Ok(None),
            DeadlineConfig::Absolute(deadline) => Ok(Some(deadline)),
            DeadlineConfig::Overall(duration) => {
                match accepted_at.checked_add(duration) {
                    Some(deadline) => Ok(Some(deadline)),
                    None => Err(()),
                }
            },
        }
    }
}

/// Builds retried work.
pub struct RetryBuilder<F, P> {
    pub factory: F,
    pub predicate: Option<P>,
    pub retry_all_errors: bool,
    pub max_attempts: u32,
    pub backoff: Backoff,
    pub jitter: Option<Jitter>,
    pub attempt_timeout: Option<Duration>,
    pub retry_timed_out_attempts: bool,
    pub deadline: Option<Instant>,
    pub overall_timeout: Option<Duration>,
    pub tag: Option<String>,
    pub abort_policy: AbortPolicy,
}

impl<F, P> RetryBuilder<F, P> {
    /// One attempt, no delays, no limits.
    pub fn new(factory: F) -> (builder: Self)
        ensures
            builder == (RetryBuilder::<F, P> {
                factory,
                predicate: None,
                retry_all_errors: false,
                max_attempts: 1,
                backoff: Backoff::Immediate,
                jitter: None,
                attempt_timeout: None,
                retry_timed_out_attempts: false,
                deadline: None,
                overall_timeout: None,
                tag: None,
                abort_policy: AbortPolicy::CooperativeOnly,
            }),
    {
        RetryBuilder {
            factory,
            predicate: None,
            retry_all_errors: false,
            max_attempts: 1,
            backoff: Backoff::Immediate,
            jitter: None,
            attempt_timeout: None,
            retry_timed_out_attempts: false,
            deadline: None,
            overall_timeout: None,
            tag: None,
            abort_policy: AbortPolicy::CooperativeOnly,
        }
    }

    /// Sets how many attempts are made at most.
    pub fn max_attempts(self, max_attempts: u32) -> (builder: Self)
        ensures
            builder == (RetryBuilder { max_attempts, ..self }),
    {
        RetryBuilder { max_attempts, ..self }
    }

    /// Sets the delays between attempts.
    pub fn backoff(self, backoff: Backoff) -> (builder: Self)
        ensures
            builder == (RetryBuilder { backoff, ..self }),
    {
        RetryBuilder { backoff, ..self }
    }

    /// Sets a delay for each retry.
    pub fn delays(self, delays: Vec<Duration>) -> (builder: Self)
        ensures
            builder == (RetryBuilder { backoff: Backoff::Explicit(delays), ..self }),
    {
        RetryBuilder { backoff: Backoff::Explicit(delays), ..self }
    }

    /// Sets the same delay for all retries.
    pub fn fixed_delay(self, delay: Duration) -> (builder: Self)
        ensures
            builder == (RetryBuilder { backoff: Backoff::Fixed(delay), ..self }),
    {
        RetryBuilder { backoff: Backoff::Fixed(delay), ..self }
    }

    /// Sets jitter.
    pub fn jitter(self, jitter: Jitter) -> (builder: Self)
        ensures
            builder == (RetryBuilder { jitter: Some(jitter), ..self }),
    {
        RetryBuilder { jitter: Some(jitter), ..self }
    }

    /// Lets `predicate` decide about each error.
    pub fn retry_if(self, predicate: P) -> (builder: Self)
        ensures
            builder == (RetryBuilder {
                predicate: Some(predicate),
                retry_all_errors: false,
                ..self
            }),
    {
        RetryBuilder { predicate: Some(predicate), retry_all_errors: false, ..self }
    }

    /// Retries every error.
    pub fn retry_all_errors(self) -> (builder: Self)
        ensures
            builder == (RetryBuilder { predicate: None, retry_all_errors: true, ..self }),
    {
        RetryBuilder { predicate: None, retry_all_errors: true, ..self }
    }

    /// Sets how long an attempt may take.
    pub fn attempt_timeout(self, timeout: Duration) -> (builder: Self)
        ensures
            builder == (RetryBuilder { attempt_timeout: Some(timeout), ..self }),
    {
        RetryBuilder { attempt_timeout: Some(timeout), ..self }
    }

    /// Retries attempts that took too long.
    pub fn retry_timed_out_attempts(self) -> (builder: Self)
        ensures
            builder == (RetryBuilder { retry_timed_out_attempts: true, ..self }),
    {
        RetryBuilder { retry_timed_out_attempts: true, ..self }
    }

    /// Sets the point in time when the work must be over.
    pub fn deadline(self, deadline: Instant) -> (builder: Self)
        ensures
            builder == (RetryBuilder { deadline: Some(deadline), ..self }),
    {
        RetryBuilder { deadline: Some(deadline), ..self }
    }

    /// Sets how long all attempts and delays may take together.
    pub fn overall_timeout(self, timeout: Duration) -> (builder: Self)
        ensures
            builder == (RetryBuilder { overall_timeout: Some(timeout), ..self }),
    {
        RetryBuilder { overall_timeout: Some(timeout), ..self }
    }

    /// Sets the tag.
    pub fn tag(self, tag: String) -> (builder: Self)
        ensures
            builder == (RetryBuilder { tag: Some(tag), ..self }),
    {
        RetryBuilder { tag: Some(tag), ..self }
    }

    /// Sets whether the work may be dropped.
    pub fn abort_policy(self, policy: AbortPolicy) -> (builder: Self)
        ensures
            builder == (RetryBuilder { abort_policy: policy, ..self }),
    {
        RetryBuilder { abort_policy: policy, ..self }
    }

    /// What the work is rejected for at `now`, if it is.
    pub open spec fn build_error(&self, now: nat) -> Option<RetryBuildError> {
        if self.max_attempts == 0 {
            Some(RetryBuildError::InvalidAttemptCount)
        } else if self.max_attempts > MAX_ATTEMPTS {
            Some(RetryBuildError::AttemptCountTooLarge)
        } else if self.max_attempts > 1 && self.predicate is None && !self.retry_all_errors {
            Some(RetryBuildError::RetryPolicyRequired)
        } else if self.deadline is Some && self.overall_timeout is Some {
            Some(RetryBuildError::ConflictingDeadline)
        } else if self.attempt_timeout is Some && self.attempt_timeout->0@ == 0 {
            Some(RetryBuildError::ZeroAttemptTimeout)
        } else if self.attempt_timeout is Some && now + self.attempt_timeout->0@ > MAX_NANOS {
            Some(RetryBuildError::DurationOverflow)
        } else if self.overall_timeout is Some && now + self.overall_timeout->0@ > MAX_NANOS {
            Some(RetryBuildError::DurationOverflow)
        } else {
            plan_error(self.backoff, (self.max_attempts - 1) as nat, self.jitter)
        }
    }

    /// Validates the work.
    pub fn build(self, now: Instant) -> (result: Result<RetrySpec<F, P>, RetryBuildError>)
        ensures
            match self.build_error(now@) {
                Some(error) => result == Err::<RetrySpec<F, P>, RetryBuildError>(error),
                None => {
                    &&& result matches Ok(spec)
                    &&& spec.wf()
                    &&& is_random_uuid(spec.id.0)
                    &&& spec.factory == self.factory
                    &&& spec.predicate == self.predicate
                    &&& spec.retry_all_errors == self.retry_all_errors
                    &&& spec.max_attempts == self.max_attempts
                    &&& spec.attempt_timeout == self.attempt_timeout
                    &&& spec.retry_timed_out_attempts == self.retry_timed_out_attempts
                    &&& spec.tag == self.tag
                    &&& spec.abort_policy == self.abort_policy
                    &&& spec.deadline == match (self.deadline, self.overall_timeout) {
                        (Some(deadline), _) => DeadlineConfig::Absolute(deadline),
                        (None, Some(timeout)) => DeadlineConfig::Overall(timeout),
                        (None, None) => DeadlineConfig::Unbounded,
                    }
                    &&& forall|i: int|
                        0 <= i < self.max_attempts - 1 ==> Some(
                            (#[trigger] spec.delays.delays@[i])@,
                        ) == planned_delay(self.backoff, self.jitter, i)
                },
            },
    {
        if self.max_attempts == 0 {
            return Err(RetryBuildError::InvalidAttemptCount);
        }
        if self.max_attempts > MAX_ATTEMPTS {
            return Err(RetryBuildError::AttemptCountTooLarge);
        }
        if self.max_attempts > 1 && self.predicate.is_none() && !self.retry_all_errors {
            return Err(RetryBuildError::RetryPolicyRequired);
        }
        if self.deadline.is_some() && self.overall_timeout.is_some() {
            return Err(RetryBuildError::ConflictingDeadline);
        }
        if let Some(timeout) = self.attempt_timeout {
            if timeout.is_zero() {
                return Err(RetryBuildError::ZeroAttemptTimeout);
            }
            if now.checked_add(timeout).is_none() {
                return Err(RetryBuildError::DurationOverflow);
            }
        }
        if let Some(timeout) = self.overall_timeout {
            if now.checked_add(timeout).is_none() {
                return Err(RetryBuildError::DurationOverflow);
            }
        }
        let retry_count: usize = (self.max_attempts - 1) as usize;
        let delays = match DelayPlan::build(&self.backoff, retry_count, &self.jitter) {
            Ok(delays) => delays,
            Err(error) => {
                return Err(error);
            },
        };
        let deadline: DeadlineConfig = match self.deadline {
            Some(deadline) => DeadlineConfig::Absolute(deadline),
            None => match self.overall_timeout {
                Some(timeout) => DeadlineConfig::Overall(timeout),
                None => DeadlineConfig::Unbounded,
            },
        };
        Ok(
            RetrySpec {
                id: TaskSpecId::new(),
                factory: self.factory,
                predicate: self.predicate,
                retry_all_errors: self.retry_all_errors,
                max_attempts: self.max_attempts,
                delays,
                attempt_timeout: self.attempt_timeout,
                retry_timed_out_attempts: self.retry_timed_out_attempts,
                deadline,
                tag: self.tag,
                abort_policy: self.abort_policy,
            },
        )
    }
}

/// The part of a retry policy that panicked.
#[derive(Clone, Copy, Debug, Eq, PartialEq, Structural)]
#[non_exhaustive]
pub enum RetryPolicyStage {
    /// The decision whether to retry.
    Predicate,
    /// The wait between attempts.
    Backoff,
}

/// Why retried work failed.
#[derive(Debug)]
#[non_exhaustive]
pub enum RetryFailure<E> {
    /// The error is not to be retried.
    NonRetryable { error: E },
    /// Every permitted attempt failed.
    Exhausted { last_error: E },
    /// An attempt took too long.
    AttemptTimedOut {
        attempt: u32,
        previous_error: Option<E>,
        may_have_side_effects: bool,
    },
}

/// What is known when it is decided whether to retry.
pub struct RetryDecisionContext<'a, E> {
    pub error: &'a E,
    pub attempt: u32,
    pub elapsed: Duration,
    pub remaining_budget: Option<Duration>,
}

/// One attempt; attempts count from one.
#[derive(Clone, Copy, Debug)]
pub struct AttemptContext {
    pub execution_id: ExecutionId,
    pub attempt: u32,
    pub accepted_at: Instant,
    pub deadline: Option<Instant>,
}

impl AttemptContext {
    /// The identity of the attempt.
    pub fn id(&self) -> (id: AttemptId)
        ensures
            id == (AttemptId { execution_id: self.execution_id, number: self.attempt }),
    {
        AttemptId { execution_id: self.execution_id, number: self.attempt }
    }

    /// The number of the attempt.
    pub fn number(&self) -> (number: u32)
        ensures
            number == self.attempt,
    {
        self.attempt
    }

    /// How long ago the work was accepted.
    pub fn elapsed(&self, now: Instant) -> (elapsed: Duration)
        ensures
            elapsed@ == if self.accepted_at@ <= now@ {
                (now@ - self.accepted_at@) as nat
            } else {
                0
            },
    {
        now.saturating_duration_since(self.accepted_at)
    }

    /// How long the work may still take, if it has a deadline.
    pub fn remaining_budget(&self, now: Instant) -> (remaining: Option<Duration>)
        ensures
            match self.deadline {
                Some(deadline) => {
                    &&& remaining is Some
                    &&& remaining->0@ == if now@ <= deadline@ {
                        (deadline@ - now@) as nat
                    } else {
                        0
                    }
                },
                None => remaining is None,
            },
    {
        match self.deadline {
            Some(deadline) => Some(deadline.saturating_duration_since(now)),
            None => None,
        }
    }
}

/// How an attempt ended.
pub enum AttemptOutcome<T, E> {
    Completed(T),
    Failed(E),
    TimedOut,
    Deadline,
    Panicked { source: PanicSource, message: String },
    ExecutorStopped,
    TimerUnavailable,
}

/// Why an attempt is interrupted.
#[derive(Clone, Copy, Debug, Eq, PartialEq, Structural)]
pub enum AttemptInterrupt {
    /// The deadline of the work.
    Deadline,
    /// The limit of the attempt.
    TimedOut,
}

/// When an attempt that starts now must be over; a limit out of range is used up at
/// once.
pub fn attempt_deadline(now: Instant, attempt_timeout: Option<Duration>) -> (result: Result<
    Option<Instant>,
    AttemptInterrupt,
>)
    ensures
        match attempt_timeout {
            None => result == Ok::<Option<Instant>, AttemptInterrupt>(None),
            Some(timeout) => if now@ + timeout@ <= MAX_NANOS {
                &&& result matches Ok(Some(deadline))
                &&& deadline@ == now@ + timeout@
            } else {
                result == Err::<Option<Instant>, AttemptInterrupt>(AttemptInterrupt::TimedOut)
            },
        },
{
    match attempt_timeout {
        Some(timeout) => {
            match now.checked_add(timeout) {
                Some(deadline) => Ok(Some(deadline)),
                None => Err(AttemptInterrupt::TimedOut),
            }
        },
        None => Ok(None),
    }
}

/// Why a running attempt is interrupted at `now`, if it is. The deadline of the work
/// comes before the limit of the attempt.
pub fn attempt_interrupt(
    deadline: Option<Instant>,
    attempt_deadline: Option<Instant>,
    now: Instant,
) -> (interrupt: Option<AttemptInterrupt>)
    ensures
        interrupt == if deadline is Some && deadline->0@ <= now@ {
            Some(AttemptInterrupt::Deadline)
        } else if attempt_deadline is Some && attempt_deadline->0@ <= now@ {
            Some(AttemptInterrupt::TimedOut)
        } else {
            None
        },
{
    if let Some(deadline) = deadline {
        if deadline.as_nanos() <= now.as_nanos() {
            return Some(AttemptInterrupt::Deadline);
        }
    }
    if let Some(attempt_deadline) = attempt_deadline {
        if attempt_deadline.as_nanos() <= now.as_nanos() {
            return Some(AttemptInterrupt::TimedOut);
        }
    }
    None
}

/// How an attempt ended that was joined.
pub open spec fn joined_attempt<T, E>(
    joined: Result<Result<T, E>, JoinFailure>,
) -> AttemptOutcome<T, E> {
    match joined {
        Ok(Ok(value)) => AttemptOutcome::Completed(value),
        Ok(Err(error)) => AttemptOutcome::Failed(error),
        Err(JoinFailure::Panicked { message: Some(message) }) => panicked_attempt(
            PanicSource::WorkFuture,
            message,
        ),
        Err(_) => AttemptOutcome::ExecutorStopped,
    }
}

/// How an attempt ended that panicked.
pub open spec fn panicked_attempt<T, E>(
    source: PanicSource,
    message: String,
) -> AttemptOutcome<T, E> {
    if says_timer_unavailable(message@) {
        AttemptOutcome::TimerUnavailable
    } else {
        AttemptOutcome::Panicked { source, message }
    }
}

/// How an attempt ended that panicked.
pub fn attempt_panicked<T, E>(source: PanicSource, message: String) -> (outcome: AttemptOutcome<
    T,
    E,
>)
    ensures
        outcome == panicked_attempt::<T, E>(source, message),
        says_timer_unavailable(message@) ==> outcome is TimerUnavailable,
        !says_timer_unavailable(message@) ==> outcome == (AttemptOutcome::<T, E>::Panicked {
            source,
            message,
        }),
{
    if is_timer_unavailable_message(message.as_str()) {
        AttemptOutcome::TimerUnavailable
    } else {
        AttemptOutcome::Panicked { source, message }
    }
}

/// How an attempt ended that was joined.
pub fn attempt_joined<T, E>(joined: Result<Result<T, E>, JoinFailure>) -> (outcome: AttemptOutcome<
    T,
    E,
>)
    ensures
        outcome == joined_attempt(joined),
        joined matches Ok(Ok(value)) ==> outcome == AttemptOutcome::<T, E>::Completed(value),
        joined matches Ok(Err(error)) ==> outcome == AttemptOutcome::<T, E>::Failed(error),
        joined matches Err(JoinFailure::Panicked { message: Some(message) }) ==> (
        if says_timer_unavailable(message@) {
            outcome is TimerUnavailable
        } else {
            outcome == (AttemptOutcome::<T, E>::Panicked {
                source: PanicSource::WorkFuture,
                message,
            })
        }),
        joined is Err && !(joined matches Err(JoinFailure::Panicked { message: Some(_) }))
            ==> outcome is ExecutorStopped,
        !(outcome is TimedOut),
        !(outcome is Deadline),
{
    match joined {
        Ok(Ok(value)) => AttemptOutcome::Completed(value),
        Ok(Err(error)) => AttemptOutcome::Failed(error),
        Err(JoinFailure::Panicked { message: Some(message) }) => {
            attempt_panicked(PanicSource::WorkFuture, message)
        },
        Err(_) => AttemptOutcome::ExecutorStopped,
    }
}

/// The outcome of work whose deadline passed.
pub fn deadline_exit<T, E>(last_error: Option<E>) -> (exit: TaskExit<T, E>)
    ensures
        exit == TaskExit::<T, E>::Failed(TaskFailure::DeadlineExceeded { last_error }),
{
    TaskExit::Failed(TaskFailure::DeadlineExceeded { last_error })
}

/// The outcome of retried work that was asked to stop, if it was.
pub open spec fn stop_exit<T, E>(
    stop: Option<StopCauseSummary>,
    last_error: Option<E>,
) -> Option<TaskExit<T, E>> {
    match stop {
        Some(StopCauseSummary::Cancel(reason)) => Some(TaskExit::Cancelled { reason }),
        Some(StopCauseSummary::Deadline) => Some(
            TaskExit::Failed(TaskFailure::DeadlineExceeded { last_error }),
        ),
        None => None,
    }
}

/// What is decided about an error.
#[derive(Clone, Copy, Debug, Eq, PartialEq, Structural)]
pub enum RetryDecision {
    Retry,
    GiveUp,
    /// The decision itself panicked.
    Panicked,
}

/// What a retry run does next.
pub enum RetryStep<T, E> {
    /// Make attempt `number`.
    Attempt { number: u32 },
    /// Decide about the error of attempt `number`.
    Decide { number: u32 },
    /// Wait; an empty span only yields.
    Wait { delay: Duration },
    /// Begin the next attempt.
    Begin,
    /// End.
    Exit(TaskExit<T, E>),
    /// Mark the deadline as passed and end.
    DeadlineExit(TaskExit<T, E>),
}

/// Retried work between two decisions.
pub struct RetryRun<E> {
    pub max_attempts: u32,
    pub retry_all_errors: bool,
    pub has_predicate: bool,
    pub retry_timed_out_attempts: bool,
    /// The number of the current attempt.
    pub number: u32,
    /// The error of the last attempt that was retried.
    pub previous_error: Option<E>,
    /// The error that is decided about.
    pub pending_error: Option<E>,
}

impl<E> RetryRun<E> {
    /// The current attempt is one of those permitted.
    pub open spec fn wf(&self) -> bool {
        1 <= self.number <= self.max_attempts
    }

    /// The step to the next attempt: the planned delay, if there is one.
    pub open spec fn wait_step<T>(&self, plan: &DelayPlan) -> RetryStep<T, E> {
        if self.number - 1 < plan.delays.len() {
            RetryStep::Wait { delay: plan.delays@[self.number - 1] }
        } else {
            RetryStep::Exit(
                TaskExit::ExecutorStopped {
                    reason: ExecutorStopReason::InternalInvariantViolation,
                },
            )
        }
    }

    /// Work that ended keeps no error: its outcome took what it needs.
    pub open spec fn left<T>(self, step: RetryStep<T, E>) -> Self {
        if step is Exit || step is DeadlineExit {
            RetryRun { previous_error: None, pending_error: None, ..self }
        } else {
            self
        }
    }

    /// The work with the error of an attempt that may be followed by another one: as the
    /// last error, or as one that is decided about.
    pub open spec fn kept_error<T>(
        self,
        outcome: AttemptOutcome<T, E>,
        stop: Option<StopCauseSummary>,
    ) -> Self {
        match outcome {
            AttemptOutcome::Failed(error) => if stop is Some || self.number
                == self.max_attempts {
                self
            } else if self.retry_all_errors {
                RetryRun { previous_error: Some(error), ..self }
            } else if self.has_predicate {
                RetryRun { pending_error: Some(error), ..self }
            } else {
                self
            },
            _ => self,
        }
    }

    fn leave<T>(&mut self, step: RetryStep<T, E>) -> (same: RetryStep<T, E>)
        ensures
            same == step,
            *final(self) == old(self).left(step),
    {
        match &step {
            RetryStep::Exit(_) => {
                self.previous_error = None;
                self.pending_error = None;
            },
            RetryStep::DeadlineExit(_) => {
                self.previous_error = None;
                self.pending_error = None;
            },
            _ => {},
        }
        step
    }

    /// Retried work before its first attempt.
    pub fn new<F, P>(spec: &RetrySpec<F, P>) -> (run: Self)
        requires
            spec.wf(),
        ensures
            run.wf(),
            run.max_attempts == spec.max_attempts,
            run.retry_all_errors == spec.retry_all_errors,
            run.has_predicate == spec.predicate is Some,
            run.retry_timed_out_attempts == spec.retry_timed_out_attempts,
            run.number == 1,
            run.previous_error is None,
            run.pending_error is None,
    {
        RetryRun {
            max_attempts: spec.max_attempts,
            retry_all_errors: spec.retry_all_errors,
            has_predicate: spec.predicate.is_some(),
            retry_timed_out_attempts: spec.retry_timed_out_attempts,
            number: 1,
            previous_error: None,
            pending_error: None,
        }
    }

    fn selected_stop_exit<T>(&mut self, stop: &Option<StopCauseSummary>) -> (exit: Option<
        TaskExit<T, E>,
    >)
        ensures
            exit == stop_exit::<T, E>(*stop, old(self).previous_error),
            stop is None ==> *final(self) == *old(self),
            final(self).number == old(self).number,
            *final(self) == (RetryRun {
                number: final(self).number,
                previous_error: final(self).previous_error,
                pending_error: final(self).pending_error,
                ..*old(self)
            }),
    {
        match stop {
            Some(StopCauseSummary::Cancel(reason)) => {
                Some(TaskExit::Cancelled { reason: reason.clone() })
            },
            Some(StopCauseSummary::Deadline) => Some(deadline_exit(self.previous_error.take())),
            None => None,
        }
    }

    fn begin_step<T>(
        &mut self,
        deadline: Option<Instant>,
        now: Instant,
        stop: &Option<StopCauseSummary>,
    ) -> (step: RetryStep<T, E>)
        requires
            old(self).wf(),
        ensures
            final(self).wf(),
            final(self).number == old(self).number,
            *final(self) == (RetryRun {
                number: final(self).number,
                previous_error: final(self).previous_error,
                pending_error: final(self).pending_error,
                ..*old(self)
            }),
            step == if deadline is Some && deadline->0@ <= now@ {
                RetryStep::<T, E>::DeadlineExit(
                    TaskExit::Failed(
                        TaskFailure::DeadlineExceeded { last_error: old(self).previous_error },
                    ),
                )
            } else if *stop is Some {
                RetryStep::Exit(stop_exit::<T, E>(*stop, old(self).previous_error)->0)
            } else {
                RetryStep::Attempt { number: old(self).number }
            },
            step is Attempt ==> *final(self) == *old(self),
    {
        if let Some(deadline) = deadline {
            if now.as_nanos() >= deadline.as_nanos() {
                return RetryStep::DeadlineExit(deadline_exit(self.previous_error.take()));
            }
        }
        match self.selected_stop_exit(stop) {
            Some(exit) => RetryStep::Exit(exit),
            None => RetryStep::Attempt { number: self.number },
        }
    }

    /// Begins an attempt: a passed deadline and a request to stop come first.
    pub fn begin<T>(
        &mut self,
        deadline: Option<Instant>,
        now: Instant,
        stop: &Option<StopCauseSummary>,
    ) -> (step: RetryStep<T, E>)
        requires
            old(self).wf(),
        ensures
            final(self).wf(),
            *final(self) == old(self).left(step),
            step == if deadline is Some && deadline->0@ <= now@ {
                RetryStep::<T, E>::DeadlineExit(
                    TaskExit::Failed(
                        TaskFailure::DeadlineExceeded { last_error: old(self).previous_error },
                    ),
                )
            } else if *stop is Some {
                RetryStep::Exit(stop_exit::<T, E>(*stop, old(self).previous_error)->0)
            } else {
                RetryStep::Attempt { number: old(self).number }
            },
    {
        let step = self.begin_step(deadline, now, stop);
        self.leave(step)
    }

    fn wait<T>(&self, plan: &DelayPlan) -> (step: RetryStep<T, E>)
        requires
            self.wf(),
        ensures
            step == self.wait_step::<T>(plan),
    {
        let index: usize = (self.number - 1) as usize;
        if index < plan.delays.len() {
            RetryStep::Wait { delay: plan.delays[index] }
        } else {
            RetryStep::Exit(
                TaskExit::ExecutorStopped {
                    reason: ExecutorStopReason::InternalInvariantViolation,
                },
            )
        }
    }

    fn attempt_done_step<T>(
        &mut self,
        outcome: AttemptOutcome<T, E>,
        stop: &Option<StopCauseSummary>,
        plan: &DelayPlan,
    ) -> (step: RetryStep<T, E>)
        requires
            old(self).wf(),
            old(self).pending_error is None,
        ensures
            final(self).wf(),
            final(self).number == old(self).number,
            *final(self) == (RetryRun {
                number: final(self).number,
                previous_error: final(self).previous_error,
                pending_error: final(self).pending_error,
                ..*old(self)
            }),
            *stop is Some ==> step == RetryStep::Exit(
                stop_exit::<T, E>(*stop, old(self).previous_error)->0,
            ),
            *stop is None ==> match outcome {
                AttemptOutcome::Completed(value) => step == RetryStep::<T, E>::Exit(
                    TaskExit::Completed(value),
                ),
                AttemptOutcome::Panicked { source, message } => step == RetryStep::<T, E>::Exit(
                    TaskExit::Panicked { source, message },
                ),
                AttemptOutcome::ExecutorStopped => step == RetryStep::<T, E>::Exit(
                    TaskExit::ExecutorStopped { reason: ExecutorStopReason::RuntimeUnavailable },
                ),
                AttemptOutcome::TimerUnavailable => step == RetryStep::<T, E>::Exit(
                    TaskExit::Failed(TaskFailure::TimerUnavailable),
                ),
                AttemptOutcome::Deadline => step == RetryStep::<T, E>::DeadlineExit(
                    TaskExit::Failed(
                        TaskFailure::DeadlineExceeded { last_error: old(self).previous_error },
                    ),
                ),
                AttemptOutcome::TimedOut => if !old(self).retry_timed_out_attempts || old(
                    self,
                ).number == old(self).max_attempts {
                    step == RetryStep::<T, E>::Exit(
                        TaskExit::Failed(
                            TaskFailure::Retry(
                                RetryFailure::AttemptTimedOut {
                                    attempt: old(self).number,
                                    previous_error: old(self).previous_error,
                                    may_have_side_effects: true,
                                },
                            ),
                        ),
                    )
                } else {
                    &&& step == old(self).wait_step::<T>(plan)
                    &&& *final(self) == *old(self)
                },
                AttemptOutcome::Failed(error) => if old(self).number == old(self).max_attempts {
                    step == RetryStep::<T, E>::Exit(
                        TaskExit::Failed(
                            TaskFailure::Retry(RetryFailure::Exhausted { last_error: error }),
                        ),
                    )
                } else if old(self).retry_all_errors {
                    &&& step == old(self).wait_step::<T>(plan)
                    &&& *final(self) == (RetryRun { previous_error: Some(error), ..*old(self) })
                } else if old(self).has_predicate {
                    &&& step == (RetryStep::<T, E>::Decide { number: old(self).number })
                    &&& *final(self) == (RetryRun { pending_error: Some(error), ..*old(self) })
                } else {
                    step == RetryStep::<T, E>::Exit(
                        TaskExit::ExecutorStopped {
                            reason: ExecutorStopReason::InternalInvariantViolation,
                        },
                    )
                },
            },
    {
        if let Some(exit) = self.selected_stop_exit(stop) {
            return RetryStep::Exit(exit);
        }
        match outcome {
            AttemptOutcome::Completed(value) => RetryStep::Exit(TaskExit::Completed(value)),
            AttemptOutcome::Panicked { source, message } => {
                RetryStep::Exit(TaskExit::Panicked { source, message })
            },
            AttemptOutcome::ExecutorStopped => RetryStep::Exit(
                TaskExit::ExecutorStopped { reason: ExecutorStopReason::RuntimeUnavailable },
            ),
            AttemptOutcome::TimerUnavailable => {
                RetryStep::Exit(TaskExit::Failed(TaskFailure::TimerUnavailable))
            },
            AttemptOutcome::Deadline => {
                RetryStep::DeadlineExit(deadline_exit(self.previous_error.take()))
            },
            AttemptOutcome::TimedOut => {
                if !self.retry_timed_out_attempts || self.number == self.max_attempts {
                    return RetryStep::Exit(
                        TaskExit::Failed(
                            TaskFailure::Retry(
                                RetryFailure::AttemptTimedOut {
                                    attempt: self.number,
                                    previous_error: self.previous_error.take(),
                                    may_have_side_effects: true,
                                },
                            ),
                        ),
                    );
                }
                self.wait(plan)
            },
            AttemptOutcome::Failed(error) => {
                if self.number == self.max_attempts {
                    return RetryStep::Exit(
                        TaskExit::Failed(
                            TaskFailure::Retry(RetryFailure::Exhausted { last_error: error }),
                        ),
                    );
                }
                if self.retry_all_errors {
                    self.previous_error = Some(error);
                    return self.wait(plan);
                }
                if !self.has_predicate {
                    return RetryStep::Exit(
                        TaskExit::ExecutorStopped {
                            reason: ExecutorStopReason::InternalInvariantViolation,
                        },
                    );
                }
                self.pending_error = Some(error);
                RetryStep::Decide { number: self.number }
            },
        }
    }

    /// Decides after an attempt.
    pub fn attempt_done<T>(
        &mut self,
        outcome: AttemptOutcome<T, E>,
        stop: &Option<StopCauseSummary>,
        plan: &DelayPlan,
    ) -> (step: RetryStep<T, E>)
        requires
            old(self).wf(),
            old(self).pending_error is None,
        ensures
            final(self).wf(),
            *final(self) == old(self).kept_error(outcome, *stop).left(step),
            *stop is Some ==> step == RetryStep::Exit(
                stop_exit::<T, E>(*stop, old(self).previous_error)->0,
            ),
            *stop is None ==> match outcome {
                AttemptOutcome::Completed(value) => step == RetryStep::<T, E>::Exit(
                    TaskExit::Completed(value),
                ),
                AttemptOutcome::Panicked { source, message } => step == RetryStep::<T, E>::Exit(
                    TaskExit::Panicked { source, message },
                ),
                AttemptOutcome::ExecutorStopped => step == RetryStep::<T, E>::Exit(
                    TaskExit::ExecutorStopped { reason: ExecutorStopReason::RuntimeUnavailable },
                ),
                AttemptOutcome::TimerUnavailable => step == RetryStep::<T, E>::Exit(
                    TaskExit::Failed(TaskFailure::TimerUnavailable),
                ),
                AttemptOutcome::Deadline => step == RetryStep::<T, E>::DeadlineExit(
                    TaskExit::Failed(
                        TaskFailure::DeadlineExceeded { last_error: old(self).previous_error },
                    ),
                ),
                AttemptOutcome::TimedOut => if !old(self).retry_timed_out_attempts || old(
                    self,
                ).number == old(self).max_attempts {
                    step == RetryStep::<T, E>::Exit(
                        TaskExit::Failed(
                            TaskFailure::Retry(
                                RetryFailure::AttemptTimedOut {
                                    attempt: old(self).number,
                                    previous_error: old(self).previous_error,
                                    may_have_side_effects: true,
                                },
                            ),
                        ),
                    )
                } else {
                    step == old(self).wait_step::<T>(plan)
                },
                AttemptOutcome::Failed(error) => if old(self).number == old(self).max_attempts {
                    step == RetryStep::<T, E>::Exit(
                        TaskExit::Failed(
                            TaskFailure::Retry(RetryFailure::Exhausted { last_error: error }),
                        ),
                    )
                } else if old(self).retry_all_errors {
                    step == old(self).wait_step::<T>(plan)
                } else if old(self).has_predicate {
                    step == (RetryStep::<T, E>::Decide { number: old(self).number })
                } else {
                    step == RetryStep::<T, E>::Exit(
                        TaskExit::ExecutorStopped {
                            reason: ExecutorStopReason::InternalInvariantViolation,
                        },
                    )
                },
            },
    {
        let step = self.attempt_done_step(outcome, stop, plan);
        self.leave(step)
    }

    /// What is known about the error that is decided about.
    pub fn decision_context<'a>(
        &'a self,
        accepted_at: Instant,
        deadline: Option<Instant>,
        now: Instant,
    ) -> (context: Option<RetryDecisionContext<'a, E>>)
        ensures
            match self.pending_error {
                Some(error) => {
                    &&& context matches Some(context)
                    &&& *context.error == error
                    &&& context.attempt == self.number
                    &&& context.elapsed@ == if accepted_at@ <= now@ {
                        (now@ - accepted_at@) as nat
                    } else {
                        0
                    }
                    &&& match deadline {
                        Some(deadline) => {
                            &&& context.remaining_budget is Some
                            &&& context.remaining_budget->0@ == if now@ <= deadline@ {
                                (deadline@ - now@) as nat
                            } else {
                                0
                            }
                        },
                        None => context.remaining_budget is None,
                    }
                },
                None => context is None,
            },
    {
        match &self.pending_error {
            Some(error) => Some(
                RetryDecisionContext {
                    error,
                    attempt: self.number,
                    elapsed: now.saturating_duration_since(accepted_at),
                    remaining_budget: match deadline {
                        Some(deadline) => Some(deadline.saturating_duration_since(now)),
                        None => None,
                    },
                },
            ),
            None => None,
        }
    }

    fn decided_step<T>(&mut self, decision: RetryDecision, plan: &DelayPlan) -> (step: RetryStep<
        T,
        E,
    >)
        requires
            old(self).wf(),
            old(self).pending_error is Some,
        ensures
            final(self).wf(),
            final(self).number == old(self).number,
            *final(self) == (RetryRun {
                number: final(self).number,
                previous_error: final(self).previous_error,
                pending_error: final(self).pending_error,
                ..*old(self)
            }),
            match decision {
                RetryDecision::GiveUp => step == RetryStep::<T, E>::Exit(
                    TaskExit::Failed(
                        TaskFailure::Retry(
                            RetryFailure::NonRetryable { error: old(self).pending_error->0 },
                        ),
                    ),
                ),
                RetryDecision::Panicked => step == RetryStep::<T, E>::Exit(
                    TaskExit::Failed(
                        TaskFailure::PolicyPanicked {
                            stage: RetryPolicyStage::Predicate,
                            last_error: old(self).pending_error,
                        },
                    ),
                ),
                RetryDecision::Retry => {
                    &&& step == old(self).wait_step::<T>(plan)
                    &&& *final(self) == (RetryRun {
                        previous_error: old(self).pending_error,
                        pending_error: None,
                        ..*old(self)
                    })
                },
            },
    {
        let error: Option<E> = self.pending_error.take();
        match decision {
            RetryDecision::GiveUp => {
                match error {
                    Some(error) => RetryStep::Exit(
                        TaskExit::Failed(TaskFailure::Retry(RetryFailure::NonRetryable { error })),
                    ),
                    None => {
                        assert(false);
                        self.wait(plan)
                    },
                }
            },
            RetryDecision::Panicked => RetryStep::Exit(
                TaskExit::Failed(
                    TaskFailure::PolicyPanicked {
                        stage: RetryPolicyStage::Predicate,
                        last_error: error,
                    },
                ),
            ),
            RetryDecision::Retry => {
                self.previous_error = error;
                self.wait(plan)
            },
        }
    }

    /// Goes on after it was decided about an error.
    pub fn decided<T>(&mut self, decision: RetryDecision, plan: &DelayPlan) -> (step: RetryStep<
        T,
        E,
    >)
        requires
            old(self).wf(),
            old(self).pending_error is Some,
        ensures
            final(self).wf(),
            *final(self) == (RetryRun {
                previous_error: if decision is Retry {
                    old(self).pending_error
                } else {
                    old(self).previous_error
                },
                pending_error: None,
                ..*old(self)
            }).left(step),
            match decision {
                RetryDecision::GiveUp => step == RetryStep::<T, E>::Exit(
                    TaskExit::Failed(
                        TaskFailure::Retry(
                            RetryFailure::NonRetryable { error: old(self).pending_error->0 },
                        ),
                    ),
                ),
                RetryDecision::Panicked => step == RetryStep::<T, E>::Exit(
                    TaskExit::Failed(
                        TaskFailure::PolicyPanicked {
                            stage: RetryPolicyStage::Predicate,
                            last_error: old(self).pending_error,
                        },
                    ),
                ),
                RetryDecision::Retry => step == old(self).wait_step::<T>(plan),
            },
    {
        let step = self.decided_step(decision, plan);
        self.leave(step)
    }

    fn waited_step<T>(&mut self, completed: bool, stop: &Option<StopCauseSummary>) -> (step:
        RetryStep<T, E>)
        requires
            old(self).wf(),
        ensures
            final(self).wf(),
            *final(self) == (RetryRun {
                number: final(self).number,
                previous_error: final(self).previous_error,
                pending_error: final(self).pending_error,
                ..*old(self)
            }),
            step == if *stop is Some {
                RetryStep::Exit(stop_exit::<T, E>(*stop, old(self).previous_error)->0)
            } else if !completed {
                RetryStep::Exit(
                    TaskExit::Failed(
                        TaskFailure::PolicyPanicked {
                            stage: RetryPolicyStage::Backoff,
                            last_error: old(self).previous_error,
                        },
                    ),
                )
            } else if old(self).number == old(self).max_attempts {
                RetryStep::Exit(
                    TaskExit::ExecutorStopped {
                        reason: ExecutorStopReason::InternalInvariantViolation,
                    },
                )
            } else {
                RetryStep::Begin
            },
            step is Begin ==> *final(self) == (RetryRun {
                number: (old(self).number + 1) as u32,
                ..*old(self)
            }),
            !(step is Begin) ==> final(self).number == old(self).number,
    {
        if let Some(exit) = self.selected_stop_exit(stop) {
            return RetryStep::Exit(exit);
        }
        if !completed {
            return RetryStep::Exit(
                TaskExit::Failed(
                    TaskFailure::PolicyPanicked {
                        stage: RetryPolicyStage::Backoff,
                        last_error: self.previous_error.take(),
                    },
                ),
            );
        }
        if self.number == self.max_attempts {
            return RetryStep::Exit(
                TaskExit::ExecutorStopped {
                    reason: ExecutorStopReason::InternalInvariantViolation,
                },
            );
        }
        self.number = self.number + 1;
        RetryStep::Begin
    }

    /// Goes on after the wait. A wait that was interrupted without a request to stop is
    /// a failure of the policy.
    pub fn waited<T>(&mut self, completed: bool, stop: &Option<StopCauseSummary>) -> (step:
        RetryStep<T, E>)
        requires
            old(self).wf(),
        ensures
            final(self).wf(),
            *final(self) == if step is Begin {
                RetryRun { number: (old(self).number + 1) as u32, ..*old(self) }
            } else {
                old(self).left(step)
            },
            step == if *stop is Some {
                RetryStep::Exit(stop_exit::<T, E>(*stop, old(self).previous_error)->0)
            } else if !completed {
                RetryStep::Exit(
                    TaskExit::Failed(
                        TaskFailure::PolicyPanicked {
                            stage: RetryPolicyStage::Backoff,
                            last_error: old(self).previous_error,
                        },
                    ),
                )
            } else if old(self).number == old(self).max_attempts {
                RetryStep::Exit(
                    TaskExit::ExecutorStopped {
                        reason: ExecutorStopReason::InternalInvariantViolation,
                    },
                )
            } else {
                RetryStep::Begin
            },
    {
        let step = self.waited_step(completed, stop);
        self.leave(step)
    }
}

/// Validated work never lacks a delay: before the last attempt there always is one.
pub proof fn lemma_validated_work_has_delays<F, P, T, E>(spec: RetrySpec<F, P>, run: RetryRun<E>)
    requires
        spec.wf(),
        run.wf(),
        run.max_attempts == spec.max_attempts,
        run.number < run.max_attempts,
    ensures
        run.wait_step::<T>(&spec.delays) == (RetryStep::<T, E>::Wait {
            delay: spec.delays.delays@[run.number - 1],
        }),
{
}

/// The same seed replays the same stream of jitter, position by position.
pub proof fn lemma_jitter_is_replayable(seed: u64, i: nat)
    ensures
        jitter_state(seed, i + 1) == jitter_step(jitter_state(seed, i)),
{
}

/// Jitter never exceeds the cap of exponential delays.
pub proof fn lemma_jitter_is_clamped(jitter: Jitter, cap: Duration, i: int)
    requires
        jitter.jittered_delay(i, Some(cap)) is Some,
    ensures
        jitter.jittered_delay(i, Some(cap))->0 <= cap@,
{
}

/// Exponential delays never exceed the longest one.
pub proof fn lemma_exponential_is_capped(exponential: ExponentialBackoff, i: int)
    requires
        exponential.longest is Some,
        exponential.delay(i) is Some,
    ensures
        exponential.delay(i)->0 <= exponential.longest->0@,
{
}

/// An attempt that returned an error failed with that very error, and one that returned a
/// value completed with it. No attempt that was joined counts as one that took too long or
/// ran into the deadline: only an interruption says so.
pub proof fn lemma_joined_attempts_keep_what_they_returned<T, E>(
    joined: Result<Result<T, E>, JoinFailure>,
)
    ensures
        joined matches Ok(Err(error)) ==> joined_attempt(joined) == AttemptOutcome::<
            T,
            E,
        >::Failed(error),
        joined_attempt(joined) matches AttemptOutcome::Failed(error) ==> joined == Ok::<
            Result<T, E>,
            JoinFailure,
        >(Err(error)),
        joined matches Ok(Ok(value)) ==> joined_attempt(joined) == AttemptOutcome::<
            T,
            E,
        >::Completed(value),
        joined_attempt(joined) matches AttemptOutcome::Completed(value) ==> joined == Ok::<
            Result<T, E>,
            JoinFailure,
        >(Ok(value)),
        !(joined_attempt(joined) is TimedOut),
        !(joined_attempt(joined) is Deadline),
        joined_attempt(joined) matches AttemptOutcome::Panicked { source, message } ==> {
            &&& source is WorkFuture
            &&& joined == Err::<Result<T, E>, JoinFailure>(
                JoinFailure::Panicked { message: Some(message) },
            )
        },
        joined == Err::<Result<T, E>, JoinFailure>(JoinFailure::Panicked { message: None })
            ==> joined_attempt(joined) is ExecutorStopped,
{
}

/// A request to stop ends retried work: a cancellation with its reason, a deadline with the
/// last error that was retried. Without one nothing ends it.
pub proof fn lemma_stop_request_names_the_exit<T, E>(
    stop: Option<StopCauseSummary>,
    last_error: Option<E>,
)
    ensures
        stop_exit::<T, E>(stop, last_error) is Some <==> stop is Some,
        stop matches Some(StopCauseSummary::Cancel(reason)) ==> stop_exit::<T, E>(stop, last_error)
            == Some(TaskExit::<T, E>::Cancelled { reason }),
        stop matches Some(StopCauseSummary::Deadline) ==> stop_exit::<T, E>(stop, last_error)
            == Some(TaskExit::<T, E>::Failed(TaskFailure::DeadlineExceeded { last_error })),
{
}

/// The delay before a retry: none, always the same, the one given for this very retry, or
/// what it grew to up to the longest one.
pub proof fn lemma_delays_follow_the_backoff(backoff: Backoff, i: int, j: int)
    ensures
        backoff is Immediate ==> backoff.base_delay(i) == Some(0nat),
        backoff matches Backoff::Fixed(delay) ==> backoff.base_delay(i) == Some(delay@)
            && backoff.base_delay(i) == backoff.base_delay(j),
        backoff matches Backoff::Explicit(delays) ==> backoff.base_delay(i) == Some(delays@[i]@),
        backoff matches Backoff::Exponential(exponential) ==> {
            &&& backoff.base_delay(i) is Some <==> i < exponential.grown.len()
                && exponential.grown@[i] is Some
            &&& backoff.base_delay(i) matches Some(delay) ==> {
                &&& delay <= exponential.grown@[i]->0@
                &&& exponential.longest is Some ==> delay <= exponential.longest->0@
                &&& delay == exponential.grown@[i]->0@ || (exponential.longest is Some && delay
                    == exponential.longest->0@)
            }
        },
{
}

/// Delays are accepted exactly if there is one for each retry and all are in range, and, if
/// they grow, the factor is valid and the cap is not below the base.
pub proof fn lemma_which_backoffs_are_valid(backoff: Backoff, count: nat)
    ensures
        backoff is Immediate || backoff is Fixed ==> backoff.error(count) is None,
        backoff matches Backoff::Explicit(delays) ==> {
            &&& backoff.error(count) is None <==> delays.len() == count
            &&& count <= usize::MAX && delays.len() != count ==> backoff.error(count) == Some(
                RetryBuildError::DelayCountMismatch {
                    expected: count as usize,
                    actual: delays.len(),
                },
            )
        },
        backoff matches Backoff::Exponential(exponential) ==> {
            &&& backoff.error(count) is None <==> {
                &&& exponential.multiplier_valid
                &&& exponential.base@ <= exponential.cap@
                &&& forall|i: int|
                    0 <= i < count ==> i < exponential.grown.len() && (
                    #[trigger] exponential.grown@[i]) is Some
            }
            &&& !exponential.multiplier_valid ==> backoff.error(count) == Some(
                RetryBuildError::InvalidBackoffMultiplier,
            )
            &&& exponential.multiplier_valid && exponential.cap@ < exponential.base@
                ==> backoff.error(count) == Some(RetryBuildError::BackoffCapBelowBase)
        },
{
    if let Backoff::Exponential(exponential) = backoff {
        if exists|i: int| 0 <= i < count && #[trigger] backoff.base_delay(i) is None {
            let i = choose|i: int| 0 <= i < count && #[trigger] backoff.base_delay(i) is None;
            assert(!(i < exponential.grown.len() && exponential.grown@[i] is Some));
        } else {
            assert forall|i: int| 0 <= i < count implies i < exponential.grown.len() && (
            #[trigger] exponential.grown@[i]) is Some by {
                assert(backoff.base_delay(i) is Some);
            }
        }
    }
}

/// Without jitter the planned delays are those of the backoff; with it, those after jitter,
/// which only the cap of exponential delays bounds.
pub proof fn lemma_planned_delays(backoff: Backoff, jitter: Option<Jitter>, i: int)
    ensures
        jitter is None ==> planned_delay(backoff, jitter, i) == backoff.base_delay(i),
        jitter is Some && i < jitter->0.jittered.len() && jitter->0.jittered@[i] is Some ==> {
            let delay = jitter->0.jittered@[i]->0@;
            &&& !(backoff is Exponential) ==> planned_delay(backoff, jitter, i) == Some(delay)
            &&& backoff matches Backoff::Exponential(exponential) ==> {
                &&& exponential.cap@ <= delay ==> planned_delay(backoff, jitter, i) == Some(
                    exponential.cap@,
                )
                &&& delay <= exponential.cap@ ==> planned_delay(backoff, jitter, i) == Some(delay)
            }
        },
        jitter is Some && !(i < jitter->0.jittered.len() && jitter->0.jittered@[i] is Some)
            ==> planned_delay(backoff, jitter, i) is None,
{
}

/// A plan is accepted exactly if the delays are, the proportion of jitter is valid and every
/// delay after jitter is in range.
pub proof fn lemma_which_plans_are_valid(backoff: Backoff, count: nat, jitter: Option<Jitter>)
    ensures
        plan_error(backoff, count, jitter) is None <==> {
            &&& backoff.error(count) is None
            &&& jitter matches Some(jittered) ==> {
                &&& jittered.ratio_valid
                &&& forall|i: int|
                    0 <= i < count ==> i < jittered.jittered.len() && (
                    #[trigger] jittered.jittered@[i]) is Some
            }
        },
        backoff.error(count) is Some ==> plan_error(backoff, count, jitter) == backoff.error(count),
        backoff.error(count) is None && jitter is Some && !jitter->0.ratio_valid ==> plan_error(
            backoff,
            count,
            jitter,
        ) == Some(RetryBuildError::InvalidJitterRatio),
{
    if let Some(jittered) = jitter {
        let cap = backoff.jitter_cap();
        if exists|i: int| 0 <= i < count && #[trigger] jittered.jittered_delay(i, cap) is None {
            let i = choose|i: int|
                0 <= i < count && #[trigger] jittered.jittered_delay(i, cap) is None;
            assert(!(i < jittered.jittered.len() && jittered.jittered@[i] is Some));
        } else {
            assert forall|i: int| 0 <= i < count implies i < jittered.jittered.len() && (
            #[trigger] jittered.jittered@[i]) is Some by {
                assert(jittered.jittered_delay(i, cap) is Some);
            }
        }
    }
}

/// Retried work is accepted exactly if it has a permitted count of attempts, a policy if
/// there are several, at most one deadline, limits that are in range and not zero, and a
/// valid plan.
pub proof fn lemma_which_retries_are_valid<F, P>(builder: RetryBuilder<F, P>, now: nat)
    ensures
        builder.build_error(now) is None <==> {
            &&& 1 <= builder.max_attempts <= 1_000_000
            &&& builder.max_attempts > 1 ==> builder.predicate is Some || builder.retry_all_errors
            &&& builder.deadline is None || builder.overall_timeout is None
            &&& builder.attempt_timeout matches Some(timeout) ==> 0 < timeout@ && now + timeout@
                <= MAX_NANOS
            &&& builder.overall_timeout matches Some(timeout) ==> now + timeout@ <= MAX_NANOS
            &&& plan_error(builder.backoff, (builder.max_attempts - 1) as nat, builder.jitter)
                is None
        },
        builder.max_attempts == 0 ==> builder.build_error(now) == Some(
            RetryBuildError::InvalidAttemptCount,
        ),
        builder.max_attempts > 1_000_000 ==> builder.build_error(now) == Some(
            RetryBuildError::AttemptCountTooLarge,
        ),
        1 < builder.max_attempts <= 1_000_000 && builder.predicate is None
            && !builder.retry_all_errors ==> builder.build_error(now) == Some(
            RetryBuildError::RetryPolicyRequired,
        ),
        builder.max_attempts == 1 && builder.deadline is Some && builder.overall_timeout is Some
            ==> builder.build_error(now) == Some(RetryBuildError::ConflictingDeadline),
        builder.max_attempts == 1 && builder.deadline is None && builder.attempt_timeout is Some
            && builder.attempt_timeout->0@ == 0 ==> builder.build_error(now) == Some(
            RetryBuildError::ZeroAttemptTimeout,
        ),
{
}

/// Work that goes on keeps the error of an attempt that may be retried: the last one where
/// all errors are, and one to decide about where a predicate is asked. Nothing else of it
/// changes. Work that ended keeps no error.
pub proof fn lemma_errors_are_kept<T, E>(
    run: RetryRun<E>,
    error: E,
    stop: Option<StopCauseSummary>,
    step: RetryStep<T, E>,
)
    requires
        run.wf(),
    ensures
        ({
            let kept = run.kept_error(AttemptOutcome::<T, E>::Failed(error), stop);
            &&& kept.number == run.number
            &&& kept.max_attempts == run.max_attempts
            &&& stop is None && run.number < run.max_attempts && run.retry_all_errors
                ==> kept.previous_error == Some(error) && kept.pending_error == run.pending_error
            &&& stop is None && run.number < run.max_attempts && !run.retry_all_errors
                && run.has_predicate ==> kept.pending_error == Some(error) && kept.previous_error
                == run.previous_error
            &&& stop is Some || run.number == run.max_attempts ==> kept == run
        }),
        run.kept_error(AttemptOutcome::<T, E>::TimedOut, stop) == run,
        step is Exit || step is DeadlineExit ==> run.left(step).previous_error is None && run.left(
            step,
        ).pending_error is None,
        step is Attempt || step is Decide || step is Wait || step is Begin ==> run.left(step)
            == run,
        run.left(step).number == run.number,
{
}

/// The delay before the next attempt is the planned one of this very attempt: two plans that
/// agree there make it wait equally long, and ones that differ there do not.
pub proof fn lemma_wait_takes_the_delay_of_the_attempt<T, E>(
    run: RetryRun<E>,
    plan: DelayPlan,
    other: DelayPlan,
)
    requires
        run.wf(),
        run.number <= plan.delays.len(),
        run.number <= other.delays.len(),
    ensures
        run.wait_step::<T>(&plan) == (RetryStep::<T, E>::Wait {
            delay: plan.delays@[run.number - 1],
        }),
        plan.delays@[run.number - 1] == other.delays@[run.number - 1] <==> run.wait_step::<T>(&plan)
            == run.wait_step::<T>(&other),
{
    let one = plan.delays@[run.number - 1];
    let two = other.delays@[run.number - 1];
    if run.wait_step::<T>(&plan) == run.wait_step::<T>(&other) {
        assert(run.wait_step::<T>(&plan)->delay == one);
        assert(run.wait_step::<T>(&other)->delay == two);
    }
}

/// The pseudo-random stream behind jitter mixes the bits of its state: a step of a
/// combination is the combination of the steps, zero stays zero and nothing else becomes it.
pub proof fn lemma_jitter_steps_mix_bits(a: u64, b: u64)
    ensures
        jitter_step(a ^ b) == jitter_step(a) ^ jitter_step(b),
        jitter_step(a) == 0 <==> a == 0,
{
    assert(jitter_step(a ^ b) == jitter_step(a) ^ jitter_step(b)) by (bit_vector);
    assert(jitter_step(a) == 0 <==> a == 0) by (bit_vector);
}

} // verus!
