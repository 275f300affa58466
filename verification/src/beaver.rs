//! The executor: its lanes, scopes, slots and execution threads, and its shutdown.

use crate::error::{BeaverError, BeaverResult};
use crate::execution::TaskSnapshot;
use crate::ids::{is_random_uuid, LaneId};
use crate::lane::LaneConfig;
use crate::names::NameTable;
use crate::observation::{ExecutorSnapshot, LaneSnapshot, ResourceLimits, TerminalRecord};
use crate::order::{ascending, in_order, Identified};
use crate::permits::{max_permits, permit_limit};
use crate::shutdown::ShutdownOptions;
use crate::supervisor::WorkerFailure;
use crate::time::{Instant, MAX_NANOS};
use vstd::prelude::*;
use vstd::string::StringExecFns;

verus! {

/// The life of an executor.
#[derive(Clone, Copy, Debug, Eq, PartialEq, Structural)]
pub enum Lifecycle {
    Running,
    ShuttingDown,
    Stopped,
}

/// A lane of the executor.
#[derive(Debug)]
pub struct LaneEntry {
    pub id: LaneId,
    pub config: LaneConfig,
}

/// A named execution thread.
#[derive(Clone, Copy, Debug, Eq, PartialEq, Structural)]
pub struct NamedEntry {
    /// Whether the thread survives a cleanup of short-lived work.
    pub long_resident: bool,
}

/// An executor.
pub struct Beaver {
    /// The name of the default execution thread.
    pub name: String,
    /// How many tasks the default execution thread queues.
    pub buffer: usize,
    pub lifecycle: Lifecycle,
    pub admission_open: bool,
    /// Whether the default execution thread is there.
    pub has_default: bool,
    pub named: NameTable<NamedEntry>,
    pub lanes: NameTable<LaneEntry>,
    /// The lane of each live scope.
    pub scopes: NameTable<LaneId>,
    /// The lane of each live slot.
    pub slots: NameTable<LaneId>,
    pub limits: ResourceLimits,
    /// How the executor shuts down, once that began.
    pub shutdown: Option<ShutdownOptions>,
}

/// The model of an executor.
#[verifier::ext_equal]
pub struct BeaverView {
    pub name: Seq<char>,
    pub buffer: nat,
    pub lifecycle: Lifecycle,
    pub admission_open: bool,
    pub has_default: bool,
    pub named: Map<Seq<char>, NamedEntry>,
    pub lanes: Map<Seq<char>, LaneEntry>,
    pub scopes: Map<Seq<char>, LaneId>,
    pub slots: Map<Seq<char>, LaneId>,
    pub limits: ResourceLimits,
    pub shutdown: Option<ShutdownOptions>,
}

impl View for Beaver {
    type V = BeaverView;

    open spec fn view(&self) -> BeaverView {
        BeaverView {
            name: self.name@,
            buffer: self.buffer as nat,
            lifecycle: self.lifecycle,
            admission_open: self.admission_open,
            has_default: self.has_default,
            named: self.named@,
            lanes: self.lanes@,
            scopes: self.scopes@,
            slots: self.slots@,
            limits: self.limits,
            shutdown: self.shutdown,
        }
    }
}

impl BeaverView {
    /// An executor with nothing in it.
    pub open spec fn fresh(name: Seq<char>, buffer: nat, limits: ResourceLimits) -> BeaverView {
        BeaverView {
            name,
            buffer,
            lifecycle: Lifecycle::Running,
            admission_open: true,
            has_default: true,
            named: Map::empty(),
            lanes: Map::empty(),
            scopes: Map::empty(),
            slots: Map::empty(),
            limits,
            shutdown: None,
        }
    }

    /// Whether one state of an executor can come after another.
    pub open spec fn followed_by(self, later: BeaverView) -> bool {
        &&& self.lifecycle == Lifecycle::ShuttingDown ==> later.lifecycle != Lifecycle::Running
        &&& self.lifecycle == Lifecycle::Stopped ==> later.lifecycle == Lifecycle::Stopped
        &&& !self.admission_open ==> !later.admission_open
        &&& self.shutdown is Some ==> later.shutdown == self.shutdown
        &&& later.limits == self.limits
    }
}

/// Configures an executor.
pub struct BeaverBuilder {
    pub name: String,
    pub buffer: usize,
    pub limits: ResourceLimits,
}

impl BeaverBuilder {
    /// Sets the resource limits.
    pub fn resource_limits(self, limits: ResourceLimits) -> (builder: Self)
        ensures
            builder == (BeaverBuilder { limits, ..self }),
    {
        BeaverBuilder { limits, ..self }
    }

    /// An executor with this configuration. It needs a runtime, limits that are not zero,
    /// and a queue that the runtime can count.
    pub fn build(self, runtime_available: bool) -> (result: BeaverResult<Beaver>)
        ensures
            if !runtime_available {
                result == Err::<Beaver, BeaverError>(BeaverError::RuntimeUnavailable)
            } else if self.limits.first_zero() is Some {
                &&& result matches Err(BeaverError::InvalidResourceLimit { field })
                &&& self.limits.first_zero() == Some(field@)
            } else if self.buffer == 0 || self.buffer > permit_limit() {
                result == Err::<Beaver, BeaverError>(BeaverError::InvalidLaneCapacity)
            } else {
                &&& result matches Ok(beaver)
                &&& beaver.wf()
                &&& beaver@ == BeaverView::fresh(self.name@, self.buffer as nat, self.limits)
            },
    {
        if !runtime_available {
            return Err(BeaverError::RuntimeUnavailable);
        }
        if let Err(error) = self.limits.validate() {
            return Err(BeaverError::InvalidResourceLimit { field: error.field });
        }
        if self.buffer == 0 || self.buffer > max_permits() {
            return Err(BeaverError::InvalidLaneCapacity);
        }
        Ok(
            Beaver {
                name: self.name,
                buffer: self.buffer,
                lifecycle: Lifecycle::Running,
                admission_open: true,
                has_default: true,
                named: NameTable::new(),
                lanes: NameTable::new(),
                scopes: NameTable::new(),
                slots: NameTable::new(),
                limits: self.limits,
                shutdown: None,
            },
        )
    }
}

/// What a lane that was asked for is.
#[derive(Clone, Copy, Debug, Eq, PartialEq, Structural)]
pub enum Creation {
    /// One that was there.
    Existing,
    /// A new one.
    Created,
}

/// What a request to shut down does.
#[derive(Clone, Copy, Debug, Eq, PartialEq, Structural)]
pub enum ShutdownRequest {
    /// Begin.
    Begin,
    /// Share the shutdown that began.
    Existing,
}

/// Why a request to shut down is rejected.
#[derive(Debug)]
pub enum ShutdownError {
    /// The end of the grace period is out of range.
    InvalidGracePeriod,
    /// Another shutdown began, with these options.
    ConfigConflict { effective_options: ShutdownOptions },
    /// The state of the executor cannot be trusted.
    LockPoisoned,
}

/// Which settings two lane configurations share.
pub open spec fn same_lane(a: LaneConfig, b: LaneConfig) -> bool {
    &&& a.lane_name() == b.lane_name()
    &&& a.queue_limit() == b.queue_limit()
    &&& a.running_limit() == b.running_limit()
    &&& a.ownership() == b.ownership()
}

/// Names of execution threads that are dropped, in the order of the table; those that are
/// long-resident may be kept.
pub open spec fn dropped_names(
    entries: Seq<(String, NamedEntry)>,
    keep_resident: bool,
    n: int,
) -> Seq<String>
    decreases n,
{
    if n <= 0 {
        seq![]
    } else if keep_resident && entries[n - 1].1.long_resident {
        dropped_names(entries, keep_resident, n - 1)
    } else {
        dropped_names(entries, keep_resident, n - 1).push(entries[n - 1].0)
    }
}

impl Beaver {
    /// The tables are sound, and the executor is running as long as no shutdown began.
    pub open spec fn wf(&self) -> bool {
        &&& self.lifecycle == Lifecycle::Running <==> self.shutdown is None
        &&& self.named.wf()
        &&& self.lanes.wf()
        &&& self.scopes.wf()
        &&& self.slots.wf()
    }

    /// Starts the configuration of an executor whose default queue holds `buffer` tasks.
    pub fn builder(name: String, buffer: usize) -> (builder: BeaverBuilder)
        ensures
            builder.name == name,
            builder.buffer == buffer,
            builder.limits.is_default(),
    {
        BeaverBuilder { name, buffer, limits: ResourceLimits::default() }
    }

    /// An executor with the default limits.
    pub fn try_new(name: String, buffer: usize, runtime_available: bool) -> (result: BeaverResult<
        Beaver,
    >)
        ensures
            if !runtime_available {
                result == Err::<Beaver, BeaverError>(BeaverError::RuntimeUnavailable)
            } else if buffer == 0 || buffer > permit_limit() {
                result == Err::<Beaver, BeaverError>(BeaverError::InvalidLaneCapacity)
            } else {
                &&& result matches Ok(beaver)
                &&& beaver.wf()
                &&& beaver@.limits.is_default()
                &&& beaver@ == BeaverView::fresh(name@, buffer as nat, beaver@.limits)
            },
    {
        Self::builder(name, buffer).build(runtime_available)
    }

    /// An executor with the default limits.
    pub fn new(name: String, buffer: usize, runtime_available: bool) -> (result: BeaverResult<
        Beaver,
    >)
        ensures
            if !runtime_available {
                result == Err::<Beaver, BeaverError>(BeaverError::RuntimeUnavailable)
            } else if buffer == 0 || buffer > permit_limit() {
                result == Err::<Beaver, BeaverError>(BeaverError::InvalidLaneCapacity)
            } else {
                &&& result matches Ok(beaver)
                &&& beaver.wf()
                &&& beaver@.limits.is_default()
                &&& beaver@ == BeaverView::fresh(name@, buffer as nat, beaver@.limits)
            },
    {
        Self::try_new(name, buffer, runtime_available)
    }

    /// Whether work is accepted.
    pub fn check_running(&self) -> (result: BeaverResult<()>)
        ensures
            result == if self@.lifecycle == Lifecycle::Running {
                Ok::<(), BeaverError>(())
            } else {
                Err(BeaverError::ExecutorShuttingDown)
            },
    {
        if self.lifecycle == Lifecycle::Running {
            Ok(())
        } else {
            Err(BeaverError::ExecutorShuttingDown)
        }
    }

    /// The resource limits.
    pub fn resource_limits(&self) -> (limits: &ResourceLimits)
        ensures
            *limits == self@.limits,
    {
        &self.limits
    }

    /// Creates a lane, or gives out the one of that name if it has this configuration.
    pub fn create_lane(&mut self, config: LaneConfig) -> (result: BeaverResult<(LaneId, Creation)>)
        requires
            old(self).wf(),
        ensures
            final(self).wf(),
            old(self)@.followed_by(final(self)@),
            !(result matches Ok((_, Creation::Created))) ==> final(self)@ == old(self)@,
            if config.queue_limit() == 0 {
                result == Err::<(LaneId, Creation), BeaverError>(BeaverError::InvalidLaneCapacity)
            } else if config.running_limit() == 0 {
                result == Err::<(LaneId, Creation), BeaverError>(
                    BeaverError::InvalidLaneConcurrency,
                )
            } else if old(self)@.lifecycle != Lifecycle::Running || !old(self)@.admission_open {
                result == Err::<(LaneId, Creation), BeaverError>(
                    BeaverError::ExecutorShuttingDown,
                )
            } else if old(self)@.lanes.contains_key(config.lane_name()) {
                let existing = old(self)@.lanes[config.lane_name()];
                if same_lane(existing.config, config) {
                    result == Ok::<(LaneId, Creation), BeaverError>(
                        (existing.id, Creation::Existing),
                    )
                } else {
                    &&& result matches Err(BeaverError::LaneConfigConflict { name })
                    &&& name@ == config.lane_name()
                }
            } else if old(self)@.lanes.dom().len() >= old(self)@.limits.max_lanes {
                &&& result matches Err(BeaverError::ResourceLimitExceeded { resource })
                &&& resource@ == "lanes"@
            } else {
                &&& result matches Ok((id, Creation::Created))
                &&& is_random_uuid(id.0)
                &&& final(self)@ == (BeaverView {
                    lanes: old(self)@.lanes.insert(config.lane_name(), LaneEntry { id, config }),
                    ..old(self)@
                })
            },
    {
        if let Err(error) = config.validate() {
            return Err(error);
        }
        if self.lifecycle != Lifecycle::Running || !self.admission_open {
            return Err(BeaverError::ExecutorShuttingDown);
        }
        let name = String::from_str(config.name());
        if let Some(existing) = self.lanes.get(&name) {
            if existing.config.same(&config) {
                return Ok((existing.id, Creation::Existing));
            }
            return Err(BeaverError::LaneConfigConflict { name });
        }
        if self.lanes.len() >= self.limits.max_lanes {
            return Err(BeaverError::ResourceLimitExceeded { resource: "lanes" });
        }
        let id = LaneId::new();
        self.lanes.insert(name, LaneEntry { id, config });
        Ok((id, Creation::Created))
    }

    /// Creates a scope on a lane, or gives out the one of that name if it is on this lane.
    pub fn create_scope(&mut self, name: String, lane: LaneId) -> (result: BeaverResult<Creation>)
        requires
            old(self).wf(),
        ensures
            final(self).wf(),
            old(self)@.followed_by(final(self)@),
            result != Ok::<Creation, BeaverError>(Creation::Created) ==> final(self)@
                == old(self)@,
            if old(self)@.lifecycle != Lifecycle::Running {
                result == Err::<Creation, BeaverError>(BeaverError::ExecutorShuttingDown)
            } else if old(self)@.scopes.contains_key(name@) {
                if old(self)@.scopes[name@] == lane {
                    result == Ok::<Creation, BeaverError>(Creation::Existing)
                } else {
                    result == Err::<Creation, BeaverError>(
                        BeaverError::ScopeConfigConflict { name },
                    )
                }
            } else if old(self)@.scopes.dom().len() >= old(self)@.limits.max_scopes {
                &&& result matches Err(BeaverError::ResourceLimitExceeded { resource })
                &&& resource@ == "scopes"@
            } else {
                &&& result == Ok::<Creation, BeaverError>(Creation::Created)
                &&& final(self)@ == (BeaverView {
                    scopes: old(self)@.scopes.insert(name@, lane),
                    ..old(self)@
                })
            },
    {
        if self.lifecycle != Lifecycle::Running {
            return Err(BeaverError::ExecutorShuttingDown);
        }
        if let Some(existing) = self.scopes.get(&name) {
            if *existing == lane {
                return Ok(Creation::Existing);
            }
            return Err(BeaverError::ScopeConfigConflict { name });
        }
        if self.scopes.len() >= self.limits.max_scopes {
            return Err(BeaverError::ResourceLimitExceeded { resource: "scopes" });
        }
        self.scopes.insert(name, lane);
        Ok(Creation::Created)
    }

    /// Forgets a scope that nobody holds.
    pub fn scope_released(&mut self, name: &String)
        requires
            old(self).wf(),
        ensures
            final(self).wf(),
            old(self)@.followed_by(final(self)@),
            final(self)@ == (BeaverView { scopes: old(self)@.scopes.remove(name@), ..old(self)@ }),
    {
        self.scopes.remove(name);
    }

    /// Creates a slot on a lane, or gives out the one of that key if it is on this lane.
    pub fn create_task_slot(&mut self, key: String, lane: LaneId) -> (result: BeaverResult<
        Creation,
    >)
        requires
            old(self).wf(),
        ensures
            final(self).wf(),
            old(self)@.followed_by(final(self)@),
            result != Ok::<Creation, BeaverError>(Creation::Created) ==> final(self)@
                == old(self)@,
            if old(self)@.lifecycle != Lifecycle::Running {
                result == Err::<Creation, BeaverError>(BeaverError::ExecutorShuttingDown)
            } else if old(self)@.slots.contains_key(key@) {
                if old(self)@.slots[key@] == lane {
                    result == Ok::<Creation, BeaverError>(Creation::Existing)
                } else {
                    result == Err::<Creation, BeaverError>(BeaverError::SlotConfigConflict { key })
                }
            } else if old(self)@.slots.dom().len() >= old(self)@.limits.max_slots {
                &&& result matches Err(BeaverError::ResourceLimitExceeded { resource })
                &&& resource@ == "task slots"@
            } else {
                &&& result == Ok::<Creation, BeaverError>(Creation::Created)
                &&& final(self)@ == (BeaverView {
                    slots: old(self)@.slots.insert(key@, lane),
                    ..old(self)@
                })
            },
    {
        if self.lifecycle != Lifecycle::Running {
            return Err(BeaverError::ExecutorShuttingDown);
        }
        if let Some(existing) = self.slots.get(&key) {
            if *existing == lane {
                return Ok(Creation::Existing);
            }
            return Err(BeaverError::SlotConfigConflict { key });
        }
        if self.slots.len() >= self.limits.max_slots {
            return Err(BeaverError::ResourceLimitExceeded { resource: "task slots" });
        }
        self.slots.insert(key, lane);
        Ok(Creation::Created)
    }

    /// Forgets a slot that nobody holds.
    pub fn slot_released(&mut self, key: &String)
        requires
            old(self).wf(),
        ensures
            final(self).wf(),
            old(self)@.followed_by(final(self)@),
            final(self)@ == (BeaverView { slots: old(self)@.slots.remove(key@), ..old(self)@ }),
    {
        self.slots.remove(key);
    }

    /// A view of the executor's resources; executions and lanes come in the order of their
    /// identities.
    pub fn snapshot(
        &self,
        active: Vec<TaskSnapshot>,
        terminal_history: Vec<TerminalRecord>,
        lanes: Vec<LaneSnapshot>,
        event_subscribers: usize,
    ) -> (snapshot: ExecutorSnapshot)
        requires
            self.wf(),
        ensures
            snapshot == (ExecutorSnapshot {
                active: snapshot.active,
                terminal_history,
                lanes: snapshot.lanes,
                scope_count: snapshot.scope_count,
                slot_count: snapshot.slot_count,
                event_subscribers,
            }),
            ascending(snapshot.active@),
            snapshot.active@.to_multiset() == active@.to_multiset(),
            ascending(snapshot.lanes@),
            snapshot.lanes@.to_multiset() == lanes@.to_multiset(),
            snapshot.scope_count == self@.scopes.dom().len(),
            snapshot.slot_count == self@.slots.dom().len(),
    {
        ExecutorSnapshot {
            active: in_order(active),
            terminal_history,
            lanes: in_order(lanes),
            scope_count: self.scopes.len(),
            slot_count: self.slots.len(),
            event_subscribers,
        }
    }

    /// Whether a task can be enqueued on the default execution thread.
    pub fn enqueue(&self) -> (result: BeaverResult<()>)
        ensures
            result == if self@.lifecycle != Lifecycle::Running {
                Err::<(), BeaverError>(BeaverError::ExecutorShuttingDown)
            } else if self@.has_default {
                Ok(())
            } else {
                Err(BeaverError::NoDam)
            },
    {
        if self.lifecycle != Lifecycle::Running {
            return Err(BeaverError::ExecutorShuttingDown);
        }
        if self.has_default {
            Ok(())
        } else {
            Err(BeaverError::NoDam)
        }
    }

    /// Finds or creates a named execution thread, and sets whether it is long-resident.
    pub fn enqueue_on_new_thread(&mut self, name: String, long_resident: bool) -> (result:
        BeaverResult<Creation>)
        requires
            old(self).wf(),
        ensures
            final(self).wf(),
            old(self)@.followed_by(final(self)@),
            if old(self)@.lifecycle != Lifecycle::Running {
                &&& result == Err::<Creation, BeaverError>(BeaverError::ExecutorShuttingDown)
                &&& final(self)@ == old(self)@
            } else {
                &&& result == Ok::<Creation, BeaverError>(
                    if old(self)@.named.contains_key(name@) {
                        Creation::Existing
                    } else {
                        Creation::Created
                    },
                )
                &&& final(self)@ == (BeaverView {
                    named: old(self)@.named.insert(name@, NamedEntry { long_resident }),
                    ..old(self)@
                })
            },
    {
        if self.lifecycle != Lifecycle::Running {
            return Err(BeaverError::ExecutorShuttingDown);
        }
        match self.named.insert(name, NamedEntry { long_resident }) {
            Some(_) => Ok(Creation::Existing),
            None => Ok(Creation::Created),
        }
    }

    fn names(&self, keep_resident: bool) -> (names: Vec<String>)
        ensures
            names@ == dropped_names(
                self.named.entries@,
                keep_resident,
                self.named.entries.len() as int,
            ),
    {
        let mut names: Vec<String> = Vec::new();
        let mut at: usize = 0;
        while at < self.named.entries.len()
            invariant
                at <= self.named.entries.len(),
                names@ == dropped_names(self.named.entries@, keep_resident, at as int),
            decreases self.named.entries.len() - at,
        {
            if !(keep_resident && self.named.entries[at].1.long_resident) {
                names.push(self.named.entries[at].0.clone());
            }
            at = at + 1;
        }
        names
    }

    /// Forgets every named execution thread, and gives out their names to cancel them.
    pub fn cancel_all(&mut self) -> (names: Vec<String>)
        requires
            old(self).wf(),
        ensures
            final(self).wf(),
            old(self)@.followed_by(final(self)@),
            final(self)@ == (BeaverView { named: Map::empty(), ..old(self)@ }),
            names@ == dropped_names(
                old(self).named.entries@,
                false,
                old(self).named.entries.len() as int,
            ),
    {
        let names = self.names(false);
        self.named = NameTable::new();
        names
    }

    /// Forgets every named execution thread that is not long-resident, and gives out
    /// their names to cancel them.
    pub fn cancel_non_long_resident(&mut self) -> (names: Vec<String>)
        requires
            old(self).wf(),
        ensures
            final(self).wf(),
            old(self)@.followed_by(final(self)@),
            names@ == dropped_names(
                old(self).named.entries@,
                true,
                old(self).named.entries.len() as int,
            ),
            final(self)@ == (BeaverView { named: final(self)@.named, ..old(self)@ }),
            forall|name: Seq<char>| #[trigger]
                final(self)@.named.contains_key(name) <==> old(self)@.named.contains_key(name)
                    && old(self)@.named[name].long_resident,
            forall|name: Seq<char>| #[trigger]
                final(self)@.named.contains_key(name) ==> final(self)@.named[name]
                    == old(self)@.named[name],
    {
        let names = self.names(true);
        let ghost before = self.named;
        let mut at: usize = 0;
        let mut kept: NameTable<NamedEntry> = NameTable::new();
        while at < self.named.entries.len()
            invariant
                at <= self.named.entries.len(),
                self.named == before,
                before.wf(),
                kept.wf(),
                forall|name: Seq<char>| #[trigger]
                    kept@.contains_key(name) ==> before@.contains_key(name)
                        && before@[name].long_resident && kept@[name] == before@[name],
                forall|i: int|
                    0 <= i < at && (#[trigger] before.entries@[i]).1.long_resident
                        ==> kept@.contains_key(before.entries@[i].0@),
            decreases self.named.entries.len() - at,
        {
            proof {
                before.lemma_entry(at as int);
            }
            if self.named.entries[at].1.long_resident {
                let name = self.named.entries[at].0.clone();
                kept.insert(name, self.named.entries[at].1);
            }
            at = at + 1;
        }
        self.named = kept;
        proof {
            assert forall|name: Seq<char>| #[trigger]
                self@.named.contains_key(name) <==> before@.contains_key(name)
                    && before@[name].long_resident by {
                if before@.contains_key(name) && before@[name].long_resident {
                    before.lemma_name(name);
                }
            }
        }
        names
    }

    /// Forgets a named execution thread; says whether there was one to release.
    pub fn release_thread_resource_by_name(&mut self, name: &String) -> (found: bool)
        requires
            old(self).wf(),
        ensures
            final(self).wf(),
            old(self)@.followed_by(final(self)@),
            found == old(self)@.named.contains_key(name@),
            final(self)@ == (BeaverView { named: old(self)@.named.remove(name@), ..old(self)@ }),
    {
        self.named.remove(name).is_some()
    }

    /// Asks the executor to shut down, for good. Later requests with the same options
    /// share the first one, and so does every request once the executor stopped.
    pub fn shutdown(&mut self, options: ShutdownOptions, now: Instant) -> (result: Result<
        ShutdownRequest,
        ShutdownError,
    >)
        requires
            old(self).wf(),
        ensures
            final(self).wf(),
            old(self)@.followed_by(final(self)@),
            result != Ok::<ShutdownRequest, ShutdownError>(ShutdownRequest::Begin)
                ==> final(self)@ == old(self)@,
            if now@ + options.grace_period@ > MAX_NANOS {
                result == Err::<ShutdownRequest, ShutdownError>(ShutdownError::InvalidGracePeriod)
            } else {
                match old(self)@.shutdown {
                    Some(effective) => result == if old(self)@.lifecycle == Lifecycle::Stopped
                        || effective == options {
                        Ok::<ShutdownRequest, ShutdownError>(ShutdownRequest::Existing)
                    } else {
                        Err(ShutdownError::ConfigConflict { effective_options: effective })
                    },
                    None => {
                        &&& result == Ok::<ShutdownRequest, ShutdownError>(ShutdownRequest::Begin)
                        &&& final(self)@ == (BeaverView {
                            admission_open: false,
                            lifecycle: Lifecycle::ShuttingDown,
                            shutdown: Some(options),
                            ..old(self)@
                        })
                    },
                }
            },
    {
        if now.checked_add(options.grace_period).is_none() {
            return Err(ShutdownError::InvalidGracePeriod);
        }
        if let Some(effective) = self.shutdown {
            if self.lifecycle == Lifecycle::Stopped || effective == options {
                return Ok(ShutdownRequest::Existing);
            }
            return Err(ShutdownError::ConfigConflict { effective_options: effective });
        }
        self.admission_open = false;
        self.lifecycle = Lifecycle::ShuttingDown;
        self.shutdown = Some(options);
        Ok(ShutdownRequest::Begin)
    }

    /// Asks the executor to shut down for good, or to share the shutdown that began,
    /// whatever its options.
    pub fn destroy(&mut self, options: ShutdownOptions, now: Instant) -> (result: BeaverResult<
        ShutdownRequest,
    >)
        requires
            old(self).wf(),
        ensures
            final(self).wf(),
            old(self)@.followed_by(final(self)@),
            if now@ + options.grace_period@ > MAX_NANOS {
                &&& result matches Err(BeaverError::WorkerFailed(message))
                &&& message@ == "shutdown grace period overflowed"@
                &&& final(self)@ == old(self)@
            } else if old(self)@.shutdown is Some {
                &&& result == Ok::<ShutdownRequest, BeaverError>(ShutdownRequest::Existing)
                &&& final(self)@ == old(self)@
            } else {
                &&& result == Ok::<ShutdownRequest, BeaverError>(ShutdownRequest::Begin)
                &&& final(self)@ == (BeaverView {
                    admission_open: false,
                    lifecycle: Lifecycle::ShuttingDown,
                    shutdown: Some(options),
                    ..old(self)@
                })
            },
    {
        match self.shutdown(options, now) {
            Ok(request) => Ok(request),
            Err(ShutdownError::ConfigConflict { effective_options: _ }) => {
                Ok(ShutdownRequest::Existing)
            },
            Err(ShutdownError::InvalidGracePeriod) => {
                Err(
                    BeaverError::WorkerFailed(
                        String::from_str("shutdown grace period overflowed"),
                    ),
                )
            },
            Err(ShutdownError::LockPoisoned) => Err(BeaverError::LockPoisoned),
        }
    }

    /// Takes every execution thread out, to be released: whether there is a default one,
    /// and the names of the others.
    pub fn take_threads(&mut self) -> (threads: (bool, Vec<String>))
        requires
            old(self).wf(),
        ensures
            final(self).wf(),
            old(self)@.followed_by(final(self)@),
            threads.0 == old(self)@.has_default,
            threads.1@ == dropped_names(
                old(self).named.entries@,
                false,
                old(self).named.entries.len() as int,
            ),
            final(self)@ == (BeaverView {
                has_default: false,
                named: Map::empty(),
                ..old(self)@
            }),
    {
        let default: bool = self.has_default;
        self.has_default = false;
        let names = self.cancel_all();
        (default, names)
    }

    /// Records that the shutdown is over.
    pub fn stopped(&mut self)
        requires
            old(self).wf(),
            old(self)@.shutdown is Some,
        ensures
            final(self).wf(),
            old(self)@.followed_by(final(self)@),
            final(self)@ == (BeaverView { lifecycle: Lifecycle::Stopped, ..old(self)@ }),
    {
        self.lifecycle = Lifecycle::Stopped;
    }
}

/// An executor goes through its life in one direction, keeps its limits, and keeps the
/// options of its first shutdown: what holds of two steps holds of both together.
pub proof fn lemma_life_goes_one_way(a: BeaverView, b: BeaverView, c: BeaverView)
    requires
        a.followed_by(b),
        b.followed_by(c),
    ensures
        a.followed_by(c),
        a.lifecycle != Lifecycle::Running ==> c.lifecycle != Lifecycle::Running,
{
}

impl Identified for TaskSnapshot {
    open spec fn identity(&self) -> u128 {
        self.execution_id.0
    }

    fn read_identity(&self) -> (id: u128) {
        self.execution_id.0
    }
}

impl Identified for LaneSnapshot {
    open spec fn identity(&self) -> u128 {
        self.lane_id.0
    }

    fn read_identity(&self) -> (id: u128) {
        self.lane_id.0
    }
}

/// How a shutdown that was waited for ended.
pub enum ShutdownOutcome {
    /// The executor stopped, with the failures of its workers.
    Stopped { worker_failures: Vec<WorkerFailure> },
    /// The grace period was over first.
    TimedOut,
    /// The shutdown itself failed, with a text.
    Failed(String),
}

/// What destroying the executor comes to: the first failure of a worker, or the end of
/// the grace period, is an error.
pub fn destroy_result(outcome: ShutdownOutcome) -> (result: BeaverResult<()>)
    ensures
        match outcome {
            ShutdownOutcome::Stopped { worker_failures } => if worker_failures.len() == 0 {
                result == Ok::<(), BeaverError>(())
            } else {
                result == Err::<(), BeaverError>(
                    BeaverError::WorkerFailed(worker_failures@[0].message),
                )
            },
            ShutdownOutcome::TimedOut => result == Err::<(), BeaverError>(
                BeaverError::ShutdownTimedOut,
            ),
            ShutdownOutcome::Failed(text) => result == Err::<(), BeaverError>(
                BeaverError::WorkerFailed(text),
            ),
        },
{
    match outcome {
        ShutdownOutcome::Stopped { worker_failures } => {
            if worker_failures.len() == 0 {
                Ok(())
            } else {
                Err(BeaverError::WorkerFailed(worker_failures[0].message.clone()))
            }
        },
        ShutdownOutcome::TimedOut => Err(BeaverError::ShutdownTimedOut),
        ShutdownOutcome::Failed(text) => Err(BeaverError::WorkerFailed(text)),
    }
}

/// A lane of a name is given out again only for the very same configuration.
pub proof fn lemma_which_configurations_agree(a: LaneConfig, b: LaneConfig)
    ensures
        same_lane(a, b) <==> a.lane_name() == b.lane_name() && a.queue_limit() == b.queue_limit()
            && a.running_limit() == b.running_limit() && a.ownership() == b.ownership(),
        same_lane(a, b) == same_lane(b, a),
        same_lane(a, a),
{
}

/// The execution threads that are dropped: all of them, or all that are not long-resident, in
/// the order of the table.
pub proof fn lemma_which_threads_are_dropped(
    entries: Seq<(String, NamedEntry)>,
    keep_resident: bool,
    n: int,
    name: String,
)
    requires
        0 <= n <= entries.len(),
    ensures
        dropped_names(entries, keep_resident, n).contains(name) <==> exists|i: int|
            0 <= i < n && (#[trigger] entries[i]).0 == name && !(keep_resident
                && entries[i].1.long_resident),
        dropped_names(entries, false, n).len() == n,
    decreases n,
{
    let names = dropped_names(entries, keep_resident, n);
    if n > 0 {
        lemma_which_threads_are_dropped(entries, keep_resident, n - 1, name);
        let before = dropped_names(entries, keep_resident, n - 1);
        let last = entries[n - 1];
        if !(keep_resident && last.1.long_resident) {
            assert(names == before.push(last.0));
            assert(names[before.len() as int] == last.0);
            if names.contains(name) && name != last.0 {
                let k = names.index_of(name);
                assert(before[k] == name);
            }
            if before.contains(name) {
                let k = before.index_of(name);
                assert(names[k] == name);
            }
            assert(entries[n - 1].0 == last.0);
        }
        if before.contains(name) {
            let i = choose|i: int|
                0 <= i < n - 1 && (#[trigger] entries[i]).0 == name && !(keep_resident
                    && entries[i].1.long_resident);
            assert(entries[i].0 == name);
        }
    }
}

/// A new executor runs, takes work, has its default thread and nothing else.
pub proof fn lemma_how_executors_begin(name: Seq<char>, buffer: nat, limits: ResourceLimits)
    ensures
        ({
            let view = BeaverView::fresh(name, buffer, limits);
            &&& view.name == name
            &&& view.buffer == buffer
            &&& view.limits == limits
            &&& view.lifecycle == Lifecycle::Running
            &&& view.admission_open
            &&& view.has_default
            &&& view.shutdown is None
            &&& view.named.dom().is_empty()
            &&& view.lanes.dom().is_empty()
            &&& view.scopes.dom().is_empty()
            &&& view.slots.dom().is_empty()
        }),
{
}

/// What a later state of an executor keeps: it does not run again, does not take work again,
/// and keeps its limits and the options of its shutdown.
pub proof fn lemma_what_later_states_keep(earlier: BeaverView, later: BeaverView)
    requires
        earlier.followed_by(later),
    ensures
        later.lifecycle == Lifecycle::Running ==> earlier.lifecycle == Lifecycle::Running,
        earlier.lifecycle == Lifecycle::Stopped ==> later.lifecycle == Lifecycle::Stopped,
        later.admission_open ==> earlier.admission_open,
        earlier.shutdown matches Some(options) ==> later.shutdown == Some(options),
        later.limits == earlier.limits,
{
}

} // verus!
