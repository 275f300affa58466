//! Jobs: what is submitted to a scheduler.
//!
//! `O` is the body of a job that is used once, `F` the factory of a job that can be used
//! again, and `R` its retry policy.

use crate::schedule::{RetryExhaustedAction, Schedule};
use crate::scheduler::types::{ExecutorErrorCode, JobId, TriggerPolicy};
use std::sync::Arc;
use vstd::prelude::*;
use vstd::string::StringExecFns;

verus! {

/// How the body of a job comes about.
pub enum JobKind<O, F> {
    /// From a body that is used once.
    Once(Option<O>),
    /// From a factory, for each attempt.
    Repeat(Arc<F>),
    /// From a factory, for each attempt of each invocation.
    Scheduled { factory: Arc<F>, trigger_policy: TriggerPolicy },
}

/// What an attempt is started from.
pub enum StartedJob<O> {
    /// The body, which was taken.
    Once(O),
    /// The factory of the job.
    Factory,
}

impl<O, F> JobKind<O, F> {
    /// Starts an attempt. A body that is used once is there only once.
    pub fn start(&mut self) -> (result: Result<StartedJob<O>, ExecutorErrorCode>)
        ensures
            match *old(self) {
                JobKind::Once(Some(body)) => {
                    &&& result == Ok::<StartedJob<O>, ExecutorErrorCode>(StartedJob::Once(body))
                    &&& *final(self) == JobKind::<O, F>::Once(None)
                },
                JobKind::Once(None) => {
                    &&& result == Err::<StartedJob<O>, ExecutorErrorCode>(
                        ExecutorErrorCode::JobAlreadyConsumed,
                    )
                    &&& *final(self) == *old(self)
                },
                _ => {
                    &&& result == Ok::<StartedJob<O>, ExecutorErrorCode>(StartedJob::Factory)
                    &&& *final(self) == *old(self)
                },
            },
    {
        match self {
            JobKind::Once(body) => {
                match body.take() {
                    Some(body) => Ok(StartedJob::Once(body)),
                    None => Err(ExecutorErrorCode::JobAlreadyConsumed),
                }
            },
            _ => Ok(StartedJob::Factory),
        }
    }

    /// What happens to manual triggers; only a scheduled job takes them.
    pub open spec fn triggers(&self) -> Option<TriggerPolicy> {
        match *self {
            JobKind::Scheduled { trigger_policy, .. } => Some(trigger_policy),
            _ => None,
        }
    }

    /// What happens to manual triggers; only a scheduled job takes them.
    pub fn trigger_policy(&self) -> (policy: Option<TriggerPolicy>)
        ensures
            policy == self.triggers(),
    {
        match self {
            JobKind::Scheduled { trigger_policy, .. } => Some(*trigger_policy),
            _ => None,
        }
    }
}

/// One submission.
pub struct Job<O, F, R> {
    pub id: JobId,
    pub key: Option<String>,
    pub key_generation: Option<u64>,
    pub lane: String,
    pub kind: JobKind<O, F>,
    pub retry: Option<Arc<R>>,
    pub schedule: Option<Arc<Schedule>>,
    pub retry_exhausted_action: RetryExhaustedAction,
}

impl<O, F, R> Job<O, F, R> {
    /// A job that is used once, on the default lane.
    pub fn once(body: O) -> (job: Self)
        ensures
            crate::ids::is_random_uuid(job.id.0),
            job.lane@ == "default"@,
            job == (Job::<O, F, R> {
                id: job.id,
                key: None,
                key_generation: None,
                lane: job.lane,
                kind: JobKind::Once(Some(body)),
                retry: None,
                schedule: None,
                retry_exhausted_action: RetryExhaustedAction::Stop,
            }),
    {
        Job {
            id: JobId::new(),
            key: None,
            key_generation: None,
            lane: String::from_str("default"),
            kind: JobKind::Once(Some(body)),
            retry: None,
            schedule: None,
            retry_exhausted_action: RetryExhaustedAction::Stop,
        }
    }

    /// The identity of the job.
    pub fn id(&self) -> (id: JobId)
        ensures
            id == self.id,
    {
        self.id
    }

    /// Sets the lane.
    pub fn on_lane(self, lane: String) -> (job: Self)
        ensures
            job == (Job { lane, ..self }),
    {
        Job { lane, ..self }
    }

    /// Sets the key.
    pub fn with_key(self, key: String) -> (job: Self)
        ensures
            job == (Job { key: Some(key), key_generation: None, ..self }),
    {
        Job { key: Some(key), key_generation: None, ..self }
    }
}

fn copy_key(key: &Option<String>) -> (copy: Option<String>)
    ensures
        copy == *key,
{
    match key {
        Some(key) => Some(key.clone()),
        None => None,
    }
}

fn share<R>(shared: &Option<Arc<R>>) -> (copy: Option<Arc<R>>)
    ensures
        copy == *shared,
{
    match shared {
        Some(shared) => Some(shared.clone()),
        None => None,
    }
}

/// A job that can be submitted again and again.
pub struct ReusableJob<F, R> {
    pub id: JobId,
    pub key: Option<String>,
    pub lane: String,
    pub factory: Arc<F>,
    pub retry: Option<Arc<R>>,
}

impl<F, R> Clone for ReusableJob<F, R> {
    fn clone(&self) -> (copy: Self)
        ensures
            copy == *self,
    {
        ReusableJob {
            id: self.id,
            key: copy_key(&self.key),
            lane: self.lane.clone(),
            factory: self.factory.clone(),
            retry: share(&self.retry),
        }
    }
}

impl<F, R> ReusableJob<F, R> {
    /// A reusable job on the default lane.
    pub fn new(factory: Arc<F>) -> (job: Self)
        ensures
            crate::ids::is_random_uuid(job.id.0),
            job.lane@ == "default"@,
            job == (ReusableJob::<F, R> {
                id: job.id,
                key: None,
                lane: job.lane,
                factory,
                retry: None,
            }),
    {
        ReusableJob {
            id: JobId::new(),
            key: None,
            lane: String::from_str("default"),
            factory,
            retry: None,
        }
    }

    /// The identity that all submissions share.
    pub fn id(&self) -> (id: JobId)
        ensures
            id == self.id,
    {
        self.id
    }

    /// Sets the lane.
    pub fn on_lane(self, lane: String) -> (job: Self)
        ensures
            job == (ReusableJob { lane, ..self }),
    {
        ReusableJob { lane, ..self }
    }

    /// Sets the key.
    pub fn with_key(self, key: String) -> (job: Self)
        ensures
            job == (ReusableJob { key: Some(key), ..self }),
    {
        ReusableJob { key: Some(key), ..self }
    }

    /// Sets the retry policy.
    pub fn retry(self, policy: Arc<R>) -> (job: Self)
        ensures
            job == (ReusableJob { retry: Some(policy), ..self }),
    {
        ReusableJob { retry: Some(policy), ..self }
    }

    /// A submission of the job.
    pub fn instantiate<O>(&self) -> (job: Job<O, F, R>)
        ensures
            job == (Job::<O, F, R> {
                id: self.id,
                key: self.key,
                key_generation: None,
                lane: self.lane,
                kind: JobKind::Repeat(self.factory),
                retry: self.retry,
                schedule: None,
                retry_exhausted_action: RetryExhaustedAction::Stop,
            }),
    {
        Job {
            id: self.id,
            key: copy_key(&self.key),
            key_generation: None,
            lane: self.lane.clone(),
            kind: JobKind::Repeat(self.factory.clone()),
            retry: share(&self.retry),
            schedule: None,
            retry_exhausted_action: RetryExhaustedAction::Stop,
        }
    }
}

/// A job with a schedule, which can be submitted again and again.
pub struct ScheduledJob<F, R> {
    pub id: JobId,
    pub key: Option<String>,
    pub lane: String,
    pub factory: Arc<F>,
    pub trigger_policy: TriggerPolicy,
    pub schedule: Arc<Schedule>,
    pub retry: Option<Arc<R>>,
    pub retry_exhausted_action: RetryExhaustedAction,
}

impl<F, R> Clone for ScheduledJob<F, R> {
    fn clone(&self) -> (copy: Self)
        ensures
            copy == *self,
    {
        ScheduledJob {
            id: self.id,
            key: copy_key(&self.key),
            lane: self.lane.clone(),
            factory: self.factory.clone(),
            trigger_policy: self.trigger_policy,
            schedule: self.schedule.clone(),
            retry: share(&self.retry),
            retry_exhausted_action: self.retry_exhausted_action,
        }
    }
}

impl<F, R> ScheduledJob<F, R> {
    /// A scheduled job on the default lane.
    pub fn new(schedule: Schedule, factory: Arc<F>) -> (job: Self)
        ensures
            crate::ids::is_random_uuid(job.id.0),
            job.lane@ == "default"@,
            *job.schedule == schedule,
            job == (ScheduledJob::<F, R> {
                id: job.id,
                key: None,
                lane: job.lane,
                factory,
                trigger_policy: TriggerPolicy::CoalesceOne,
                schedule: job.schedule,
                retry: None,
                retry_exhausted_action: RetryExhaustedAction::Stop,
            }),
    {
        ScheduledJob {
            id: JobId::new(),
            key: None,
            lane: String::from_str("default"),
            factory,
            trigger_policy: TriggerPolicy::CoalesceOne,
            schedule: Arc::new(schedule),
            retry: None,
            retry_exhausted_action: RetryExhaustedAction::Stop,
        }
    }

    /// The identity that all submissions share.
    pub fn id(&self) -> (id: JobId)
        ensures
            id == self.id,
    {
        self.id
    }

    /// Sets the lane.
    pub fn on_lane(self, lane: String) -> (job: Self)
        ensures
            job == (ScheduledJob { lane, ..self }),
    {
        ScheduledJob { lane, ..self }
    }

    /// Sets the key.
    pub fn with_key(self, key: String) -> (job: Self)
        ensures
            job == (ScheduledJob { key: Some(key), ..self }),
    {
        ScheduledJob { key: Some(key), ..self }
    }

    /// Sets the retry policy of each invocation.
    pub fn retry(self, policy: Arc<R>) -> (job: Self)
        ensures
            job == (ScheduledJob { retry: Some(policy), ..self }),
    {
        ScheduledJob { retry: Some(policy), ..self }
    }

    /// Sets what happens when an invocation used up its retries.
    pub fn retry_exhausted_action(self, action: RetryExhaustedAction) -> (job: Self)
        ensures
            job == (ScheduledJob { retry_exhausted_action: action, ..self }),
    {
        ScheduledJob { retry_exhausted_action: action, ..self }
    }

    /// Sets what happens to manual triggers.
    pub fn trigger_policy(self, policy: TriggerPolicy) -> (job: Self)
        ensures
            job == (ScheduledJob { trigger_policy: policy, ..self }),
    {
        ScheduledJob { trigger_policy: policy, ..self }
    }

    /// A submission of the job.
    pub fn instantiate<O>(&self) -> (job: Job<O, F, R>)
        ensures
            job == (Job::<O, F, R> {
                id: self.id,
                key: self.key,
                key_generation: None,
                lane: self.lane,
                kind: JobKind::Scheduled {
                    factory: self.factory,
                    trigger_policy: self.trigger_policy,
                },
                retry: self.retry,
                schedule: Some(self.schedule),
                retry_exhausted_action: self.retry_exhausted_action,
            }),
    {
        Job {
            id: self.id,
            key: copy_key(&self.key),
            key_generation: None,
            lane: self.lane.clone(),
            kind: JobKind::Scheduled {
                factory: self.factory.clone(),
                trigger_policy: self.trigger_policy,
            },
            retry: share(&self.retry),
            schedule: Some(self.schedule.clone()),
            retry_exhausted_action: self.retry_exhausted_action,
        }
    }
}

/// Only a scheduled job takes manual triggers, as its own policy says.
pub proof fn lemma_which_jobs_take_triggers<O, F>(kind: JobKind<O, F>)
    ensures
        kind.triggers() is Some <==> kind is Scheduled,
        kind is Scheduled ==> kind.triggers() == Some(kind->trigger_policy),
{
}

} // verus!
