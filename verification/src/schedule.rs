//! Schedules of repeated invocations and the cursor that walks along one.

use crate::time::{Duration, Instant, MAX_NANOS};
use vstd::prelude::*;

verus! {

/// When the first invocation starts.
#[derive(Clone, Copy, Debug, Eq, PartialEq, Structural)]
pub enum FirstRun {
    /// As soon as there is a place to run.
    Immediate,
    /// After this span, counted from submission.
    After(Duration),
}

/// How a fixed-rate schedule recovers when nominal ticks passed unused.
#[derive(Clone, Copy, Debug, Eq, PartialEq, Structural)]
pub enum MissedTickBehavior {
    /// Waits for the next tick that lies in the future.
    Skip,
    /// Puts the next tick one interval after now.
    Delay,
    /// Runs at once for up to `max_catch_up` missed ticks, then skips the rest.
    Burst {
        /// The most immediate runs in a row.
        max_catch_up: u32,
    },
}

/// A point in time as an offset from the start of a run.
#[derive(Clone, Copy, Debug, Eq, Ord, PartialEq, PartialOrd, Structural)]
pub struct ScheduleTime(Duration);

impl View for ScheduleTime {
    type V = nat;

    /// The offset in nanoseconds.
    closed spec fn view(&self) -> nat {
        self.0@
    }
}

impl ScheduleTime {
    /// Equal offsets are the same point.
    pub proof fn lemma_ext(a: ScheduleTime, b: ScheduleTime)
        requires
            a@ == b@,
        ensures
            a == b,
    {
        Duration::lemma_ext(a.0, b.0);
    }

    /// The point at `offset` after the start of the run.
    pub fn after_start(offset: Duration) -> (time: Self)
        ensures
            time@ == offset@,
    {
        ScheduleTime(offset)
    }

    /// The offset from the start of the run.
    pub fn offset(self) -> (offset: Duration)
        ensures
            offset@ == self@,
    {
        self.0
    }
}

/// What a scheduled job wants after one successful invocation.
#[derive(Debug)]
pub enum TaskControl<T> {
    /// Continue as the schedule says.
    Continue,
    /// Continue after this span, counted from the end of the invocation.
    ContinueAfter(Duration),
    /// Continue at this point of the run.
    ContinueAt(ScheduleTime),
    /// Stop with this value.
    Complete(T),
}

/// Why a schedule is invalid or has no next invocation.
#[derive(Clone, Copy, Debug, Eq, PartialEq, Structural)]
#[non_exhaustive]
pub enum ScheduleError {
    /// A fixed interval was zero.
    ZeroInterval,
    /// A sequence of delays was empty.
    EmptySequence,
    /// A repeating sequence had only zero delays.
    UnboundedZeroSequence,
    /// A burst allowed no immediate run.
    ZeroBurstLimit,
    /// A point in time is out of range.
    DurationOverflow,
    /// A sequence that does not repeat has no more delays.
    SequenceExhausted,
    /// A dynamic schedule was told to continue without a delay.
    DynamicControlRequired,
    /// The invocations can no longer be numbered.
    RunIndexExhausted,
}

impl ScheduleError {
    /// Human-readable description.
    pub fn message(&self) -> (message: &'static str)
        ensures
            match *self {
                ScheduleError::ZeroInterval => message@
                    == "schedule interval must be greater than zero"@,
                ScheduleError::EmptySequence => message@
                    == "schedule delay sequence must not be empty"@,
                ScheduleError::UnboundedZeroSequence => message@
                    == "a repeating schedule sequence cannot contain only zero delays"@,
                ScheduleError::ZeroBurstLimit => message@
                    == "schedule burst limit must be greater than zero"@,
                ScheduleError::DurationOverflow => message@
                    == "schedule time exceeds the monotonic clock range"@,
                ScheduleError::SequenceExhausted => message@
                    == "schedule delay sequence was exhausted"@,
                ScheduleError::DynamicControlRequired => message@
                    == "dynamic schedule requires ContinueAfter or ContinueAt"@,
                ScheduleError::RunIndexExhausted => message@ == "schedule run index is exhausted"@,
            },
    {
        match self {
            ScheduleError::ZeroInterval => "schedule interval must be greater than zero",
            ScheduleError::EmptySequence => "schedule delay sequence must not be empty",
            ScheduleError::UnboundedZeroSequence => {
                "a repeating schedule sequence cannot contain only zero delays"
            },
            ScheduleError::ZeroBurstLimit => "schedule burst limit must be greater than zero",
            ScheduleError::DurationOverflow => "schedule time exceeds the monotonic clock range",
            ScheduleError::SequenceExhausted => "schedule delay sequence was exhausted",
            ScheduleError::DynamicControlRequired => {
                "dynamic schedule requires ContinueAfter or ContinueAt"
            },
            ScheduleError::RunIndexExhausted => "schedule run index is exhausted",
        }
    }
}

/// What a scheduled job does when one invocation used up its retries.
#[derive(Clone, Copy, Debug, Eq, PartialEq, Structural)]
pub enum RetryExhaustedAction {
    /// The whole schedule ends.
    Stop,
    /// The error is dropped and the schedule goes on.
    ContinueSchedule,
}

#[derive(Debug)]
enum ScheduleKind {
    FixedDelay(Duration),
    FixedRate(Duration),
    Sequence { delays: Vec<Duration>, repeat: bool },
    Dynamic,
}

/// The rule of a schedule, with spans in nanoseconds.
pub enum KindView {
    /// The next interval starts when an invocation ends.
    FixedDelay(nat),
    /// Ticks lie at fixed offsets from the start.
    FixedRate(nat),
    /// The given delays in order, from the start again if they repeat.
    Sequence(Seq<nat>, bool),
    /// Every invocation names the next delay.
    Dynamic,
}

/// A rule and its recovery from missed ticks.
pub struct ScheduleView {
    pub first_run: FirstRun,
    pub missed_tick: MissedTickBehavior,
    pub kind: KindView,
}

/// A validated schedule.
#[derive(Debug)]
pub struct Schedule {
    first_run: FirstRun,
    missed_tick: MissedTickBehavior,
    kind: ScheduleKind,
}

spec fn kind_view(kind: ScheduleKind) -> KindView {
    match kind {
        ScheduleKind::FixedDelay(interval) => KindView::FixedDelay(interval@),
        ScheduleKind::FixedRate(interval) => KindView::FixedRate(interval@),
        ScheduleKind::Sequence { delays, repeat } => KindView::Sequence(
            delays@.map_values(|delay: Duration| delay@),
            repeat,
        ),
        ScheduleKind::Dynamic => KindView::Dynamic,
    }
}

impl View for Schedule {
    type V = ScheduleView;

    closed spec fn view(&self) -> ScheduleView {
        ScheduleView {
            first_run: self.first_run,
            missed_tick: self.missed_tick,
            kind: kind_view(self.kind),
        }
    }
}

/// Whether the first invocation lies in the range of the clock.
pub open spec fn first_run_fits(first_run: FirstRun, now: nat) -> bool {
    first_run matches FirstRun::After(delay) ==> now + delay@ <= MAX_NANOS
}

fn validate_first_run(first_run: FirstRun, now: Instant) -> (result: Result<(), ScheduleError>)
    ensures
        match result {
            Ok(_) => first_run_fits(first_run, now@),
            Err(error) => {
                &&& error == ScheduleError::DurationOverflow
                &&& !first_run_fits(first_run, now@)
            },
        },
{
    if let FirstRun::After(delay) = first_run {
        if now.checked_add(delay).is_none() {
            return Err(ScheduleError::DurationOverflow);
        }
    }
    Ok(())
}

/// What an interval schedule is rejected for, if it is.
pub open spec fn interval_error(interval: Duration, first_run: FirstRun, now: nat) -> Option<
    ScheduleError,
> {
    if interval@ == 0 {
        Some(ScheduleError::ZeroInterval)
    } else if now + interval@ > MAX_NANOS || !first_run_fits(first_run, now) {
        Some(ScheduleError::DurationOverflow)
    } else {
        None
    }
}

/// Whether all delays are zero.
pub open spec fn all_zero(delays: Seq<Duration>) -> bool {
    forall|i: int| 0 <= i < delays.len() ==> (#[trigger] delays[i])@ == 0
}

/// Whether all delays lie in the range of the clock.
pub open spec fn all_fit(delays: Seq<Duration>, now: nat) -> bool {
    forall|i: int| 0 <= i < delays.len() ==> now + (#[trigger] delays[i])@ <= MAX_NANOS
}

/// What a sequence schedule is rejected for, if it is.
pub open spec fn sequence_error(
    delays: Seq<Duration>,
    repeat: bool,
    first_run: FirstRun,
    now: nat,
) -> Option<ScheduleError> {
    if delays.len() == 0 {
        Some(ScheduleError::EmptySequence)
    } else if repeat && all_zero(delays) {
        Some(ScheduleError::UnboundedZeroSequence)
    } else if !all_fit(delays, now) || !first_run_fits(first_run, now) {
        Some(ScheduleError::DurationOverflow)
    } else {
        None
    }
}

impl ScheduleView {
    /// Intervals are not zero, sequences not empty, and bursts not idle.
    pub open spec fn wf(self) -> bool {
        &&& match self.kind {
            KindView::FixedDelay(interval) => 0 < interval <= MAX_NANOS,
            KindView::FixedRate(interval) => 0 < interval <= MAX_NANOS,
            KindView::Sequence(delays, _) => delays.len() > 0,
            KindView::Dynamic => true,
        }
        &&& self.missed_tick matches MissedTickBehavior::Burst { max_catch_up } ==> max_catch_up > 0
    }
}

impl Schedule {
    /// The next interval starts when an invocation ends.
    pub fn fixed_delay(interval: Duration, first_run: FirstRun, now: Instant) -> (result: Result<
        Self,
        ScheduleError,
    >)
        ensures
            match interval_error(interval, first_run, now@) {
                Some(error) => result == Err::<Self, ScheduleError>(error),
                None => result is Ok && result->Ok_0@ == (ScheduleView {
                    first_run,
                    missed_tick: MissedTickBehavior::Skip,
                    kind: KindView::FixedDelay(interval@),
                }) && result->Ok_0@.wf(),
            },
    {
        match Self::check_interval(interval, first_run, now) {
            Err(error) => Err(error),
            Ok(_) => Ok(
                Schedule {
                    first_run,
                    missed_tick: MissedTickBehavior::Skip,
                    kind: ScheduleKind::FixedDelay(interval),
                },
            ),
        }
    }

    /// Ticks lie at fixed offsets from the start of the run.
    pub fn fixed_rate(interval: Duration, first_run: FirstRun, now: Instant) -> (result: Result<
        Self,
        ScheduleError,
    >)
        ensures
            match interval_error(interval, first_run, now@) {
                Some(error) => result == Err::<Self, ScheduleError>(error),
                None => result is Ok && result->Ok_0@ == (ScheduleView {
                    first_run,
                    missed_tick: MissedTickBehavior::Skip,
                    kind: KindView::FixedRate(interval@),
                }) && result->Ok_0@.wf(),
            },
    {
        match Self::check_interval(interval, first_run, now) {
            Err(error) => Err(error),
            Ok(_) => Ok(
                Schedule {
                    first_run,
                    missed_tick: MissedTickBehavior::Skip,
                    kind: ScheduleKind::FixedRate(interval),
                },
            ),
        }
    }

    fn check_interval(interval: Duration, first_run: FirstRun, now: Instant) -> (result: Result<
        (),
        ScheduleError,
    >)
        ensures
            match interval_error(interval, first_run, now@) {
                Some(error) => result == Err::<(), ScheduleError>(error),
                None => result is Ok && interval@ <= MAX_NANOS,
            },
    {
        if interval.is_zero() {
            return Err(ScheduleError::ZeroInterval);
        }
        if now.checked_add(interval).is_none() {
            return Err(ScheduleError::DurationOverflow);
        }
        validate_first_run(first_run, now)
    }

    /// The given delays in order, from the start again if they repeat.
    pub fn sequence(
        delays: Vec<Duration>,
        repeat: bool,
        first_run: FirstRun,
        now: Instant,
    ) -> (result: Result<Self, ScheduleError>)
        ensures
            match sequence_error(delays@, repeat, first_run, now@) {
                Some(error) => result == Err::<Self, ScheduleError>(error),
                None => result is Ok && result->Ok_0@ == (ScheduleView {
                    first_run,
                    missed_tick: MissedTickBehavior::Skip,
                    kind: KindView::Sequence(
                        delays@.map_values(|delay: Duration| delay@),
                        repeat,
                    ),
                }) && result->Ok_0@.wf(),
            },
    {
        if delays.len() == 0 {
            return Err(ScheduleError::EmptySequence);
        }
        let mut zero: bool = true;
        let mut fit: bool = true;
        let mut at: usize = 0;
        while at < delays.len()
            invariant
                at <= delays.len(),
                zero <==> forall|i: int| 0 <= i < at ==> (#[trigger] delays@[i])@ == 0,
                fit <==> forall|i: int|
                    0 <= i < at ==> now@ + (#[trigger] delays@[i])@ <= MAX_NANOS,
            decreases delays.len() - at,
        {
            if !delays[at].is_zero() {
                zero = false;
            }
            if now.checked_add(delays[at]).is_none() {
                fit = false;
            }
            at = at + 1;
        }
        if repeat && zero {
            return Err(ScheduleError::UnboundedZeroSequence);
        }
        if !fit {
            return Err(ScheduleError::DurationOverflow);
        }
        match validate_first_run(first_run, now) {
            Err(error) => Err(error),
            Ok(_) => Ok(
                Schedule {
                    first_run,
                    missed_tick: MissedTickBehavior::Skip,
                    kind: ScheduleKind::Sequence { delays, repeat },
                },
            ),
        }
    }

    /// Every invocation must name the next delay.
    pub fn dynamic(first_run: FirstRun, now: Instant) -> (result: Result<Self, ScheduleError>)
        ensures
            match result {
                Ok(schedule) => first_run_fits(first_run, now@) && schedule@ == (ScheduleView {
                    first_run,
                    missed_tick: MissedTickBehavior::Skip,
                    kind: KindView::Dynamic,
                }) && schedule@.wf(),
                Err(error) => {
                    &&& error == ScheduleError::DurationOverflow
                    &&& !first_run_fits(first_run, now@)
                },
            },
    {
        match validate_first_run(first_run, now) {
            Err(error) => Err(error),
            Ok(_) => Ok(
                Schedule {
                    first_run,
                    missed_tick: MissedTickBehavior::Skip,
                    kind: ScheduleKind::Dynamic,
                },
            ),
        }
    }

    /// Sets the recovery from missed ticks.
    pub fn missed_tick_behavior(self, behavior: MissedTickBehavior) -> (result: Result<
        Self,
        ScheduleError,
    >)
        ensures
            match result {
                Ok(schedule) => {
                    &&& behavior != (MissedTickBehavior::Burst { max_catch_up: 0 })
                    &&& schedule@ == (ScheduleView { missed_tick: behavior, ..self@ })
                    &&& self@.wf() ==> schedule@.wf()
                },
                Err(error) => {
                    &&& error == ScheduleError::ZeroBurstLimit
                    &&& behavior == (MissedTickBehavior::Burst { max_catch_up: 0 })
                },
            },
    {
        if let MissedTickBehavior::Burst { max_catch_up } = behavior {
            if max_catch_up == 0 {
                return Err(ScheduleError::ZeroBurstLimit);
            }
        }
        Ok(Schedule { missed_tick: behavior, ..self })
    }

    /// When the first invocation starts.
    pub fn first_run(&self) -> (first_run: FirstRun)
        ensures
            first_run == self@.first_run,
    {
        self.first_run
    }

    /// The recovery from missed ticks.
    pub fn missed_tick(&self) -> (behavior: MissedTickBehavior)
        ensures
            behavior == self@.missed_tick,
    {
        self.missed_tick
    }

    /// A cursor before the first invocation.
    pub fn cursor(&self) -> (cursor: ScheduleCursor)
        ensures
            cursor@ == (CursorView {
                schedule: self@,
                offset: match self@.first_run {
                    FirstRun::Immediate => 0,
                    FirstRun::After(delay) => delay@,
                },
                index: 0,
                burst: 0,
            }),
            cursor@.wf() == self@.wf(),
    {
        let kind = match &self.kind {
            ScheduleKind::FixedDelay(interval) => ScheduleKind::FixedDelay(*interval),
            ScheduleKind::FixedRate(interval) => ScheduleKind::FixedRate(*interval),
            ScheduleKind::Sequence { delays, repeat } => {
                let copy = delays.clone();
                assert(copy@ =~= delays@);
                ScheduleKind::Sequence { delays: copy, repeat: *repeat }
            },
            ScheduleKind::Dynamic => ScheduleKind::Dynamic,
        };
        assert(kind_view(kind) == kind_view(self.kind));
        ScheduleCursor {
            schedule: Schedule {
                first_run: self.first_run,
                missed_tick: self.missed_tick,
                kind,
            },
            scheduled_offset: match self.first_run {
                FirstRun::Immediate => Duration::zero(),
                FirstRun::After(delay) => delay,
            },
            sequence_index: 0,
            burst_used: 0,
        }
    }
}

/// Where a run stands on its schedule; `offset` is the point of the last planned
/// invocation in nanoseconds from the start of the run.
pub struct CursorView {
    pub schedule: ScheduleView,
    pub offset: nat,
    pub index: nat,
    pub burst: nat,
}

/// A step along a schedule: the cursor afterwards, and the delay or an error.
pub struct Step {
    pub cursor: CursorView,
    pub delay: Result<nat, ScheduleError>,
}

impl CursorView {
    /// The schedule is valid, and no more was caught up than is allowed.
    pub open spec fn wf(self) -> bool {
        &&& self.schedule.wf()
        &&& self.schedule.missed_tick matches MissedTickBehavior::Burst { max_catch_up }
            ==> self.burst <= max_catch_up
        &&& self.schedule.kind matches KindView::Sequence(delays, _) ==> self.index <= delays.len()
    }

    /// Fails, leaving the cursor as it is.
    pub open spec fn fail(self, error: ScheduleError) -> Step {
        Step { cursor: self, delay: Err(error) }
    }

    /// Waits `delay`, counted from `elapsed`, if that point is in range.
    pub open spec fn wait(self, elapsed: nat, delay: nat) -> Step {
        if elapsed + delay <= MAX_NANOS {
            Step {
                cursor: CursorView { offset: elapsed + delay, burst: 0, ..self },
                delay: Ok(delay),
            }
        } else {
            self.fail(ScheduleError::DurationOverflow)
        }
    }

    /// Waits for the first tick after `elapsed` on the grid through `nominal`.
    pub open spec fn skip(self, elapsed: nat, nominal: nat, interval: nat) -> Step {
        let skips = (elapsed - nominal) / (interval as int) + 1;
        let next = (nominal + interval * skips) as nat;
        let after = CursorView { burst: 0, ..self };
        if skips <= u32::MAX && next <= MAX_NANOS {
            Step {
                cursor: CursorView { offset: next, ..after },
                delay: Ok((next - elapsed) as nat),
            }
        } else {
            after.fail(ScheduleError::DurationOverflow)
        }
    }

    /// The step that the schedule itself takes.
    pub open spec fn advance(self, elapsed: nat) -> Step {
        match self.schedule.kind {
            KindView::FixedDelay(interval) => self.wait(elapsed, interval),
            KindView::FixedRate(interval) => {
                let nominal = self.offset + interval;
                if nominal > MAX_NANOS {
                    self.fail(ScheduleError::DurationOverflow)
                } else if nominal > elapsed {
                    Step {
                        cursor: CursorView { offset: nominal, burst: 0, ..self },
                        delay: Ok((nominal - elapsed) as nat),
                    }
                } else {
                    match self.schedule.missed_tick {
                        MissedTickBehavior::Delay => self.wait(elapsed, interval),
                        MissedTickBehavior::Skip => self.skip(elapsed, nominal, interval),
                        MissedTickBehavior::Burst { max_catch_up } => if self.burst
                            < max_catch_up {
                            Step {
                                cursor: CursorView {
                                    offset: nominal,
                                    burst: self.burst + 1,
                                    ..self
                                },
                                delay: Ok(0),
                            }
                        } else {
                            self.skip(elapsed, nominal, interval)
                        },
                    }
                }
            },
            KindView::Sequence(delays, repeat) => {
                if self.index < delays.len() {
                    CursorView { index: self.index + 1, ..self }.wait(
                        elapsed,
                        delays[self.index as int],
                    )
                } else if repeat {
                    CursorView { index: 1, ..self }.wait(elapsed, delays[0])
                } else {
                    self.fail(ScheduleError::SequenceExhausted)
                }
            },
            KindView::Dynamic => self.fail(ScheduleError::DynamicControlRequired),
        }
    }

    /// The step after an invocation that ended `elapsed` after the start of the run.
    pub open spec fn next<T>(self, control: TaskControl<T>, elapsed: nat) -> Step {
        match control {
            TaskControl::ContinueAfter(delay) => self.wait(elapsed, delay@),
            TaskControl::ContinueAt(time) => Step {
                cursor: CursorView { offset: time@, burst: 0, ..self },
                delay: Ok(
                    if elapsed <= time@ {
                        (time@ - elapsed) as nat
                    } else {
                        0
                    },
                ),
            },
            _ => self.advance(elapsed),
        }
    }
}

/// Walks along a schedule.
#[derive(Debug)]
pub struct ScheduleCursor {
    schedule: Schedule,
    scheduled_offset: Duration,
    sequence_index: usize,
    burst_used: u32,
}

impl View for ScheduleCursor {
    type V = CursorView;

    closed spec fn view(&self) -> CursorView {
        CursorView {
            schedule: self.schedule@,
            offset: self.scheduled_offset@,
            index: self.sequence_index as nat,
            burst: self.burst_used as nat,
        }
    }
}

/// Whether a step came out as planned.
pub open spec fn takes(result: Result<Duration, ScheduleError>, delay: Result<nat, ScheduleError>)
    -> bool {
    match delay {
        Ok(nanos) => result is Ok && result->Ok_0@ == nanos,
        Err(error) => result == Err::<Duration, ScheduleError>(error),
    }
}

impl ScheduleCursor {
    /// The delay before the first invocation.
    pub fn first_delay(&self) -> (delay: Duration)
        ensures
            delay@ == self@.offset,
    {
        self.scheduled_offset
    }

    /// The delay before the next invocation, after one that ended `elapsed` after the
    /// start of the run and asked for `control`. A completed run has none.
    pub fn next_delay<T>(&mut self, control: &TaskControl<T>, elapsed: Duration) -> (result: Result<
        Duration,
        ScheduleError,
    >)
        requires
            old(self)@.wf(),
            !(control is Complete),
        ensures
            final(self)@.wf(),
            final(self)@ == old(self)@.next(*control, elapsed@).cursor,
            takes(result, old(self)@.next(*control, elapsed@).delay),
    {
        match control {
            TaskControl::ContinueAfter(delay) => self.wait(elapsed, *delay),
            TaskControl::ContinueAt(time) => {
                self.scheduled_offset = time.offset();
                self.burst_used = 0;
                Ok(time.offset().saturating_sub(elapsed))
            },
            _ => self.next_default(elapsed),
        }
    }

    fn wait(&mut self, elapsed: Duration, delay: Duration) -> (result: Result<
        Duration,
        ScheduleError,
    >)
        ensures
            final(self)@ == old(self)@.wait(elapsed@, delay@).cursor,
            takes(result, old(self)@.wait(elapsed@, delay@).delay),
    {
        match elapsed.checked_add(delay) {
            Some(offset) => {
                self.scheduled_offset = offset;
                self.burst_used = 0;
                Ok(delay)
            },
            None => Err(ScheduleError::DurationOverflow),
        }
    }

    fn next_default(&mut self, elapsed: Duration) -> (result: Result<Duration, ScheduleError>)
        requires
            old(self)@.wf(),
        ensures
            final(self)@.wf(),
            final(self)@ == old(self)@.advance(elapsed@).cursor,
            takes(result, old(self)@.advance(elapsed@).delay),
    {
        match &self.schedule.kind {
            ScheduleKind::FixedDelay(interval) => {
                let interval: Duration = *interval;
                self.wait(elapsed, interval)
            },
            ScheduleKind::FixedRate(interval) => {
                let interval: Duration = *interval;
                let nominal: Duration = match self.scheduled_offset.checked_add(interval) {
                    Some(nominal) => nominal,
                    None => {
                        return Err(ScheduleError::DurationOverflow);
                    },
                };
                if nominal.as_nanos() > elapsed.as_nanos() {
                    self.scheduled_offset = nominal;
                    self.burst_used = 0;
                    return Ok(nominal.saturating_sub(elapsed));
                }
                match self.schedule.missed_tick {
                    MissedTickBehavior::Delay => self.wait(elapsed, interval),
                    MissedTickBehavior::Skip => {
                        self.burst_used = 0;
                        self.skip_past(elapsed, nominal, interval)
                    },
                    MissedTickBehavior::Burst { max_catch_up } => {
                        if self.burst_used < max_catch_up {
                            self.burst_used = self.burst_used + 1;
                            self.scheduled_offset = nominal;
                            Ok(Duration::zero())
                        } else {
                            self.burst_used = 0;
                            self.skip_past(elapsed, nominal, interval)
                        }
                    },
                }
            },
            ScheduleKind::Sequence { delays, repeat } => {
                let delay: Duration = if self.sequence_index < delays.len() {
                    let delay: Duration = delays[self.sequence_index];
                    self.sequence_index = self.sequence_index + 1;
                    delay
                } else if *repeat {
                    let delay: Duration = delays[0];
                    self.sequence_index = 1;
                    delay
                } else {
                    return Err(ScheduleError::SequenceExhausted);
                };
                self.wait(elapsed, delay)
            },
            ScheduleKind::Dynamic => Err(ScheduleError::DynamicControlRequired),
        }
    }

    fn skip_past(&mut self, elapsed: Duration, nominal: Duration, interval: Duration) -> (result:
        Result<Duration, ScheduleError>)
        requires
            nominal@ <= elapsed@,
            interval@ > 0,
            old(self)@.burst == 0,
        ensures
            final(self)@ == old(self)@.skip(elapsed@, nominal@, interval@).cursor,
            takes(result, old(self)@.skip(elapsed@, nominal@, interval@).delay),
    {
        let missed: u128 = elapsed.saturating_sub(nominal).as_nanos();
        let step: u128 = interval.as_nanos();
        let quotient: u128 = missed / step;
        proof {
            assert(missed / step <= missed) by (nonlinear_arith)
                requires
                    step > 0,
            ;
        }
        let skips: u128 = quotient + 1;
        let ghost next = nominal@ + interval@ * skips;
        proof {
            let s = (elapsed@ - nominal@) / (interval@ as int) + 1;
            assert(s == skips);
            assert(interval@ * skips >= 0) by (nonlinear_arith)
                requires
                    interval@ >= 0,
                    skips >= 0,
            ;
            assert(next > elapsed@) by (nonlinear_arith)
                requires
                    next == nominal@ + interval@ * skips,
                    skips == missed / step + 1,
                    missed == elapsed@ - nominal@,
                    step == interval@,
                    step > 0,
            ;
        }
        if skips > u32::MAX as u128 {
            return Err(ScheduleError::DurationOverflow);
        }
        let advance: Duration = match interval.checked_mul(skips as u32) {
            Some(advance) => advance,
            None => {
                return Err(ScheduleError::DurationOverflow);
            },
        };
        match nominal.checked_add(advance) {
            Some(offset) => {
                self.scheduled_offset = offset;
                Ok(offset.saturating_sub(elapsed))
            },
            None => Err(ScheduleError::DurationOverflow),
        }
    }
}

/// A fixed-delay schedule always waits its interval from the end of an invocation.
pub proof fn lemma_fixed_delay_waits_interval(cursor: CursorView, interval: nat, elapsed: nat)
    requires
        cursor.schedule.kind == KindView::FixedDelay(interval),
        elapsed + interval <= MAX_NANOS,
    ensures
        cursor.advance(elapsed).delay == Ok::<nat, ScheduleError>(interval),
        cursor.advance(elapsed).cursor.offset == elapsed + interval,
{
}

/// Whether `to` lies `ticks` intervals after `from`.
pub open spec fn ticks_apart(from: nat, to: nat, interval: nat, ticks: nat) -> bool {
    ticks > 0 && to == from + interval * ticks
}

/// A fixed-rate schedule that skips stays on its grid: the next invocation is planned
/// a whole number of intervals after the last one, strictly after now, and no more
/// than one interval after now.
pub proof fn lemma_skipping_stays_on_grid(cursor: CursorView, interval: nat, elapsed: nat)
    requires
        cursor.wf(),
        cursor.schedule.kind == KindView::FixedRate(interval),
        cursor.schedule.missed_tick == MissedTickBehavior::Skip,
        cursor.advance(elapsed).delay is Ok,
    ensures
        exists|ticks: nat| #[trigger]
            ticks_apart(cursor.offset, cursor.advance(elapsed).cursor.offset, interval, ticks),
        cursor.advance(elapsed).cursor.offset == elapsed + cursor.advance(elapsed).delay->Ok_0,
        cursor.advance(elapsed).delay->Ok_0 > 0,
        cursor.offset <= elapsed ==> cursor.advance(elapsed).delay->Ok_0 <= interval,
{
    let nominal = cursor.offset + interval;
    let step = cursor.advance(elapsed);
    if nominal > elapsed {
        assert(ticks_apart(cursor.offset, step.cursor.offset, interval, 1));
    } else {
        let missed = elapsed - nominal;
        let skips = missed / (interval as int) + 1;
        let ticks = (skips + 1) as nat;
        assert(skips >= 1) by (nonlinear_arith)
            requires
                missed >= 0,
                interval > 0,
                skips == missed / (interval as int) + 1,
        ;
        assert(interval * skips >= 0) by (nonlinear_arith)
            requires
                interval >= 0,
                skips >= 1,
        ;
        assert(nominal + interval * skips == cursor.offset + interval * ticks)
            by (nonlinear_arith)
            requires
                nominal == cursor.offset + interval,
                ticks == skips + 1,
        ;
        assert(elapsed < nominal + interval * skips <= elapsed + interval) by (nonlinear_arith)
            requires
                missed == elapsed - nominal,
                missed >= 0,
                interval > 0,
                skips == missed / (interval as int) + 1,
        ;
        assert(ticks_apart(cursor.offset, step.cursor.offset, interval, ticks));
    }
}

/// A burst runs at once at most `max_catch_up` times in a row; then it waits.
pub proof fn lemma_burst_is_bounded(
    cursor: CursorView,
    interval: nat,
    elapsed: nat,
    max_catch_up: u32,
)
    requires
        cursor.wf(),
        cursor.schedule.kind == KindView::FixedRate(interval),
        cursor.schedule.missed_tick == (MissedTickBehavior::Burst { max_catch_up }),
        cursor.advance(elapsed).delay is Ok,
    ensures
        cursor.advance(elapsed).cursor.wf(),
        cursor.advance(elapsed).delay->Ok_0 == 0 ==> cursor.advance(elapsed).cursor.burst
            == cursor.burst + 1,
        cursor.burst == max_catch_up ==> cursor.advance(elapsed).delay->Ok_0 > 0,
{
    let nominal = cursor.offset + interval;
    if nominal <= elapsed && cursor.burst == max_catch_up {
        let missed = elapsed - nominal;
        let skips = missed / (interval as int) + 1;
        assert(elapsed < nominal + interval * skips) by (nonlinear_arith)
            requires
                missed == elapsed - nominal,
                missed >= 0,
                interval > 0,
                skips == missed / (interval as int) + 1,
        ;
    }
}

/// An immediate run of a burst uses up exactly one missed tick: there are never more of
/// them in a row than ticks were missed.
pub proof fn lemma_each_catch_up_uses_a_missed_tick(
    cursor: CursorView,
    interval: nat,
    elapsed: nat,
    max_catch_up: u32,
)
    requires
        cursor.wf(),
        cursor.schedule.kind == KindView::FixedRate(interval),
        cursor.schedule.missed_tick == (MissedTickBehavior::Burst { max_catch_up }),
        cursor.advance(elapsed).delay == Ok::<nat, ScheduleError>(0),
    ensures
        cursor.advance(elapsed).cursor.offset == cursor.offset + interval,
        cursor.offset + interval <= elapsed,
        elapsed - cursor.advance(elapsed).cursor.offset == elapsed - cursor.offset - interval,
{
    let nominal = cursor.offset + interval;
    if nominal <= elapsed && cursor.burst >= max_catch_up {
        lemma_burst_is_bounded(cursor, interval, elapsed, max_catch_up);
    }
}

/// A burst makes up for a missed tick at once as long as it may; then it waits as a schedule
/// does that skips.
pub proof fn lemma_burst_runs_at_once_then_skips(
    cursor: CursorView,
    interval: nat,
    elapsed: nat,
    max_catch_up: u32,
)
    requires
        cursor.wf(),
        cursor.schedule.kind == KindView::FixedRate(interval),
        cursor.schedule.missed_tick == (MissedTickBehavior::Burst { max_catch_up }),
        cursor.offset + interval <= elapsed,
        elapsed <= MAX_NANOS,
    ensures
        cursor.burst < max_catch_up ==> cursor.advance(elapsed).delay == Ok::<nat, ScheduleError>(
            0,
        ),
        cursor.burst < max_catch_up ==> cursor.advance(elapsed).cursor.burst == cursor.burst + 1,
        ({
            let skipping = CursorView {
                schedule: ScheduleView {
                    missed_tick: MissedTickBehavior::Skip,
                    ..cursor.schedule
                },
                ..cursor
            };
            cursor.burst == max_catch_up ==> {
                &&& cursor.advance(elapsed).delay == skipping.advance(elapsed).delay
                &&& cursor.advance(elapsed).cursor.offset == skipping.advance(
                    elapsed,
                ).cursor.offset
                &&& cursor.advance(elapsed).cursor.burst == 0
            }
        }),
{
}

/// A fixed-rate schedule that is on time waits for the tick one interval after the last one,
/// whatever it does about missed ticks, and a burst begins anew.
pub proof fn lemma_on_time_waits_for_the_next_tick(
    cursor: CursorView,
    interval: nat,
    elapsed: nat,
)
    requires
        cursor.schedule.kind == KindView::FixedRate(interval),
        elapsed < cursor.offset + interval <= MAX_NANOS,
    ensures
        cursor.advance(elapsed).delay is Ok,
        elapsed + cursor.advance(elapsed).delay->Ok_0 == cursor.offset + interval,
        cursor.advance(elapsed).cursor.offset == cursor.offset + interval,
        cursor.advance(elapsed).cursor.burst == 0,
{
}

/// A fixed-rate schedule that missed a tick and delays begins a new grid: one full interval
/// from now.
pub proof fn lemma_delayed_rate_starts_over(cursor: CursorView, interval: nat, elapsed: nat)
    requires
        cursor.schedule.kind == KindView::FixedRate(interval),
        cursor.schedule.missed_tick == MissedTickBehavior::Delay,
        cursor.offset + interval <= elapsed,
        elapsed + interval <= MAX_NANOS,
    ensures
        cursor.advance(elapsed).delay == Ok::<nat, ScheduleError>(interval),
        cursor.advance(elapsed).cursor.offset == elapsed + interval,
        cursor.advance(elapsed).cursor.burst == 0,
{
}

/// A fixed-rate schedule that skips succeeds wherever the tick that it waits for is in range
/// and fewer than 2^32 ticks were missed.
pub proof fn lemma_skipping_succeeds_in_range(cursor: CursorView, interval: nat, elapsed: nat)
    requires
        cursor.wf(),
        cursor.schedule.kind == KindView::FixedRate(interval),
        cursor.schedule.missed_tick == MissedTickBehavior::Skip,
        elapsed + interval <= MAX_NANOS,
        cursor.offset + interval <= MAX_NANOS,
        elapsed < cursor.offset + interval * 0xffff_ffff,
    ensures
        cursor.advance(elapsed).delay is Ok,
{
    let nominal = cursor.offset + interval;
    if nominal <= elapsed {
        let missed = elapsed - nominal;
        let skips = missed / (interval as int) + 1;
        assert(nominal + interval * skips <= elapsed + interval && skips <= 0xffff_ffff
            && interval * skips >= 0) by (nonlinear_arith)
            requires
                missed == elapsed - nominal,
                missed >= 0,
                interval > 0,
                nominal == cursor.offset + interval,
                elapsed < cursor.offset + interval * 0xffff_ffff,
                skips == missed / (interval as int) + 1,
        ;
    }
}

/// A sequence gives its delays one after the other; at its end it begins anew with the first
/// one if it repeats, and else it is exhausted.
pub proof fn lemma_sequence_gives_its_delays_in_order(
    cursor: CursorView,
    delays: Seq<nat>,
    repeat: bool,
    elapsed: nat,
)
    requires
        cursor.wf(),
        cursor.schedule.kind == KindView::Sequence(delays, repeat),
        forall|i: int| 0 <= i < delays.len() ==> elapsed + (#[trigger] delays[i]) <= MAX_NANOS,
    ensures
        cursor.index < delays.len() ==> {
            &&& cursor.advance(elapsed).delay == Ok::<nat, ScheduleError>(
                delays[cursor.index as int],
            )
            &&& cursor.advance(elapsed).cursor.index == cursor.index + 1
        },
        cursor.index == delays.len() && repeat ==> {
            &&& cursor.advance(elapsed).delay == Ok::<nat, ScheduleError>(delays[0])
            &&& cursor.advance(elapsed).cursor.index == 1
        },
        cursor.index == delays.len() && !repeat ==> cursor.advance(elapsed).delay == Err::<
            nat,
            ScheduleError,
        >(ScheduleError::SequenceExhausted),
        cursor.advance(elapsed).delay matches Ok(delay) ==> cursor.advance(elapsed).cursor.offset
            == elapsed + delay,
{
}

/// A dynamic schedule has no delay of its own.
pub proof fn lemma_dynamic_needs_control(cursor: CursorView, elapsed: nat)
    requires
        cursor.schedule.kind == KindView::Dynamic,
    ensures
        cursor.advance(elapsed).delay == Err::<nat, ScheduleError>(
            ScheduleError::DynamicControlRequired,
        ),
{
}

/// What an invocation asks for comes before the schedule: a span is waited from its end, a
/// point is waited for from the start of the run, and one that has passed is due at once.
/// Neither moves a sequence on. Without a wish the schedule decides.
pub proof fn lemma_control_comes_before_the_schedule<T>(
    cursor: CursorView,
    control: TaskControl<T>,
    elapsed: nat,
)
    ensures
        control matches TaskControl::ContinueAfter(delay) ==> if elapsed + delay@ <= MAX_NANOS {
            &&& cursor.next(control, elapsed).delay == Ok::<nat, ScheduleError>(delay@)
            &&& cursor.next(control, elapsed).cursor.offset == elapsed + delay@
            &&& cursor.next(control, elapsed).cursor.index == cursor.index
            &&& cursor.next(control, elapsed).cursor.burst == 0
        } else {
            cursor.next(control, elapsed).delay == Err::<nat, ScheduleError>(
                ScheduleError::DurationOverflow,
            )
        },
        control matches TaskControl::ContinueAt(time) ==> {
            let delay = cursor.next(control, elapsed).delay;
            &&& delay is Ok
            &&& elapsed <= time@ ==> elapsed + delay->Ok_0 == time@
            &&& time@ < elapsed ==> delay->Ok_0 == 0
            &&& cursor.next(control, elapsed).cursor.offset == time@
            &&& cursor.next(control, elapsed).cursor.index == cursor.index
        },
        control is Continue ==> cursor.next(control, elapsed) == cursor.advance(elapsed),
{
}

/// A step never changes the schedule itself, and one that fails leaves the plan where it was.
pub proof fn lemma_steps_keep_the_schedule<T>(
    cursor: CursorView,
    control: TaskControl<T>,
    elapsed: nat,
)
    ensures
        cursor.next(control, elapsed).cursor.schedule == cursor.schedule,
        cursor.next(control, elapsed).delay is Err ==> cursor.next(control, elapsed).cursor.offset
            == cursor.offset,
{
}

/// An interval is taken exactly if it is not zero and it and the first run are in range.
pub proof fn lemma_which_intervals_are_valid(interval: Duration, first_run: FirstRun, now: nat)
    ensures
        interval_error(interval, first_run, now) is None <==> {
            &&& interval@ > 0
            &&& now + interval@ <= MAX_NANOS
            &&& first_run matches FirstRun::After(delay) ==> now + delay@ <= MAX_NANOS
        },
        interval@ == 0 ==> interval_error(interval, first_run, now) == Some(
            ScheduleError::ZeroInterval,
        ),
        interval@ > 0 && now + interval@ > MAX_NANOS ==> interval_error(interval, first_run, now)
            == Some(ScheduleError::DurationOverflow),
{
}

/// A sequence is taken exactly if it is not empty, does not repeat zeros for ever, and it and
/// the first run are in range.
pub proof fn lemma_which_sequences_are_valid(
    delays: Seq<Duration>,
    repeat: bool,
    first_run: FirstRun,
    now: nat,
)
    ensures
        sequence_error(delays, repeat, first_run, now) is None <==> {
            &&& delays.len() > 0
            &&& repeat ==> exists|i: int| 0 <= i < delays.len() && (#[trigger] delays[i])@ > 0
            &&& forall|i: int|
                0 <= i < delays.len() ==> now + (#[trigger] delays[i])@ <= MAX_NANOS
            &&& first_run matches FirstRun::After(delay) ==> now + delay@ <= MAX_NANOS
        },
        delays.len() == 0 ==> sequence_error(delays, repeat, first_run, now) == Some(
            ScheduleError::EmptySequence,
        ),
        delays.len() > 0 && repeat && (forall|i: int|
            0 <= i < delays.len() ==> (#[trigger] delays[i])@ == 0) ==> sequence_error(
            delays,
            repeat,
            first_run,
            now,
        ) == Some(ScheduleError::UnboundedZeroSequence),
{
    if repeat && delays.len() > 0 && !all_zero(delays) {
        let i = choose|i: int| 0 <= i < delays.len() && (#[trigger] delays[i])@ != 0;
        assert(delays[i]@ > 0);
    }
}

/// A delay is given as it was computed, and an error as it was found.
pub proof fn lemma_delays_are_given_as_computed(
    result: Result<Duration, ScheduleError>,
    delay: Result<nat, ScheduleError>,
)
    requires
        takes(result, delay),
    ensures
        result is Ok <==> delay is Ok,
        result matches Ok(span) ==> delay == Ok::<nat, ScheduleError>(span@),
        result matches Err(error) ==> delay == Err::<nat, ScheduleError>(error),
{
}

/// The cursor after `times` steps that all ended at the same time.
pub open spec fn advanced(cursor: CursorView, elapsed: nat, times: nat) -> CursorView
    decreases times,
{
    if times == 0 {
        cursor
    } else {
        advanced(cursor, elapsed, (times - 1) as nat).advance(elapsed).cursor
    }
}

/// There are never more immediate runs of a burst in a row than ticks were missed.
pub proof fn lemma_no_more_catch_ups_than_missed_ticks(
    cursor: CursorView,
    interval: nat,
    elapsed: nat,
    max_catch_up: u32,
    times: nat,
)
    requires
        cursor.wf(),
        cursor.schedule.kind == KindView::FixedRate(interval),
        cursor.schedule.missed_tick == (MissedTickBehavior::Burst { max_catch_up }),
        forall|k: nat|
            k < times ==> (#[trigger] advanced(cursor, elapsed, k)).advance(elapsed).delay == Ok::<
                nat,
                ScheduleError,
            >(0),
    ensures
        times > 0 ==> cursor.offset + interval * times <= elapsed,
        advanced(cursor, elapsed, times).offset == cursor.offset + interval * times,
        advanced(cursor, elapsed, times).schedule == cursor.schedule,
        advanced(cursor, elapsed, times).wf(),
    decreases times,
{
    if times > 0 {
        let before = (times - 1) as nat;
        lemma_no_more_catch_ups_than_missed_ticks(cursor, interval, elapsed, max_catch_up, before);
        let reached = advanced(cursor, elapsed, before);
        assert(reached.advance(elapsed).delay == Ok::<nat, ScheduleError>(0));
        lemma_each_catch_up_uses_a_missed_tick(reached, interval, elapsed, max_catch_up);
        lemma_steps_keep_the_schedule(reached, TaskControl::<()>::Continue, elapsed);
        assert(interval * before + interval == interval * times) by (nonlinear_arith)
            requires
                times == before + 1,
        ;
    } else {
        assert(interval * 0 == 0);
    }
}

} // verus!
