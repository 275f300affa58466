//! Keyed ownership: at most one current run for a key, numbered by generations that only
//! grow.

use crate::ids::{is_random_uuid, random_uuid};
use crate::names::NameTable;
use crate::scheduler::run::{KeyRegistration, RunShared};
use crate::scheduler::types::{KeyStatus, TaskRunId};
use vstd::prelude::*;

verus! {

/// Who holds a key.
#[derive(Clone, Copy, Debug)]
pub enum KeyEntry {
    /// A submission that is under way.
    Reserved {
        token: u128,
        generation: u64,
        /// The run that is replaced.
        previous: Option<(u64, TaskRunId)>,
        /// Whether the key was stopped meanwhile.
        stopped: bool,
    },
    /// A run.
    Running { generation: u64, run_id: TaskRunId },
}

impl KeyEntry {
    /// The generation of the holder.
    pub open spec fn held_generation(self) -> u64 {
        match self {
            KeyEntry::Reserved { generation, .. } => generation,
            KeyEntry::Running { generation, .. } => generation,
        }
    }

    /// What is told about the holder.
    pub open spec fn described(self) -> KeyStatus {
        match self {
            KeyEntry::Reserved { generation, previous, .. } => KeyStatus {
                generation,
                run_id: match previous {
                    Some((_, run_id)) => Some(run_id),
                    None => None,
                },
                replacing: true,
            },
            KeyEntry::Running { generation, run_id } => KeyStatus {
                generation,
                run_id: Some(run_id),
                replacing: false,
            },
        }
    }

    /// What is told about the holder.
    pub fn status(&self) -> (status: KeyStatus)
        ensures
            status == self.described(),
    {
        match self {
            KeyEntry::Reserved { generation, previous, .. } => KeyStatus {
                generation: *generation,
                run_id: match previous {
                    Some((_, run_id)) => Some(*run_id),
                    None => None,
                },
                replacing: true,
            },
            KeyEntry::Running { generation, run_id } => KeyStatus {
                generation: *generation,
                run_id: Some(*run_id),
                replacing: false,
            },
        }
    }
}

/// A submission under a key that is under way.
#[derive(Debug)]
pub struct KeyReservation {
    pub key: String,
    pub token: u128,
    pub generation: u64,
    pub previous: Option<(u64, TaskRunId)>,
}

/// Why a key cannot be reserved.
#[derive(Clone, Copy, Debug)]
pub enum ReserveKeyError {
    /// The key is held.
    Busy(KeyStatus),
    /// The generations of the key are used up.
    GenerationExhausted,
}

/// The holders of keys and the last generation of each key.
#[derive(Debug)]
pub struct KeyRegistryState {
    pub current: NameTable<KeyEntry>,
    pub generations: NameTable<u64>,
}

/// The model of a key registry.
#[verifier::ext_equal]
pub struct KeysView {
    pub current: Map<Seq<char>, KeyEntry>,
    pub generations: Map<Seq<char>, u64>,
}

impl KeysView {
    /// Without the holder of a key that is a run that is over.
    pub open spec fn without_finished(self, key: Seq<char>, finished: bool) -> KeysView {
        if self.current.contains_key(key) && self.current[key] is Running && finished {
            KeysView { current: self.current.remove(key), ..self }
        } else {
            self
        }
    }

    /// The last generation of a key; zero if there was none.
    pub open spec fn last_generation(self, key: Seq<char>) -> u64 {
        if self.generations.contains_key(key) {
            self.generations[key]
        } else {
            0
        }
    }

    /// Every holder has a generation that was given out, and replaces an older one.
    pub open spec fn sound(self) -> bool {
        forall|key: Seq<char>| #[trigger]
            self.current.contains_key(key) ==> {
                &&& self.current[key].held_generation() <= self.last_generation(key)
                &&& self.current[key] matches KeyEntry::Reserved {
                    generation,
                    previous: Some((older, _)),
                    ..
                } ==> older < generation
            }
    }

    /// The run that a new holder of the key would replace.
    pub open spec fn replaced(self, key: Seq<char>) -> Option<(u64, TaskRunId)> {
        if self.current.contains_key(key) {
            match self.current[key] {
                KeyEntry::Running { generation, run_id } => Some((generation, run_id)),
                _ => None,
            }
        } else {
            None
        }
    }

    /// Whether the key cannot be reserved because of its holder.
    pub open spec fn blocks(self, key: Seq<char>, replace: bool) -> bool {
        self.current.contains_key(key) && (!replace || self.current[key] is Reserved)
    }

    /// After a reservation of the key under `token`.
    pub open spec fn reserved(self, key: Seq<char>, token: u128) -> KeysView {
        let generation = (self.last_generation(key) + 1) as u64;
        KeysView {
            current: self.current.insert(
                key,
                KeyEntry::Reserved {
                    token,
                    generation,
                    previous: self.replaced(key),
                    stopped: false,
                },
            ),
            generations: self.generations.insert(key, generation),
        }
    }

    /// Whether the reservation still stands for its key.
    pub open spec fn holds(self, key: Seq<char>, token: u128) -> bool {
        &&& self.current.contains_key(key)
        &&& self.current[key] matches KeyEntry::Reserved { token: held, .. }
        &&& held == token
    }

    /// Whether the reservation still stands and the key was not stopped.
    pub open spec fn active(self, key: Seq<char>, token: u128) -> bool {
        self.holds(key, token) && !self.current[key]->stopped
    }

    /// After the reservation became a run, or failed to because the key was stopped or the
    /// run is over already.
    pub open spec fn committed(
        self,
        key: Seq<char>,
        token: u128,
        generation: u64,
        run_id: TaskRunId,
        finished: bool,
    ) -> KeysView {
        if self.active(key, token) && !finished {
            KeysView {
                current: self.current.insert(key, KeyEntry::Running { generation, run_id }),
                ..self
            }
        } else if self.holds(key, token) {
            KeysView { current: self.current.remove(key), ..self }
        } else {
            self
        }
    }

    /// After the reservation was given up: the run that was to be replaced holds the key
    /// again, unless the key was stopped or that run is over.
    pub open spec fn released(
        self,
        key: Seq<char>,
        token: u128,
        previous: Option<(u64, TaskRunId)>,
        finished: bool,
    ) -> KeysView {
        if !self.holds(key, token) {
            self
        } else if self.current[key]->stopped || previous is None || finished {
            KeysView { current: self.current.remove(key), ..self }
        } else {
            let (generation, run_id) = previous->0;
            KeysView {
                current: self.current.insert(key, KeyEntry::Running { generation, run_id }),
                ..self
            }
        }
    }

    /// After the run that holds the key ended, if this run holds it.
    pub open spec fn unheld(self, key: Seq<char>, generation: u64, run_id: TaskRunId) -> KeysView {
        if self.current.contains_key(key) && self.current[key] == (KeyEntry::Running {
            generation,
            run_id,
        }) {
            KeysView { current: self.current.remove(key), ..self }
        } else {
            self
        }
    }

    /// After the key was stopped.
    pub open spec fn stopped(self, key: Seq<char>) -> KeysView {
        if self.current.contains_key(key) {
            match self.current[key] {
                KeyEntry::Reserved { token, generation, previous, .. } => KeysView {
                    current: self.current.insert(
                        key,
                        KeyEntry::Reserved { token, generation, previous, stopped: true },
                    ),
                    ..self
                },
                _ => self,
            }
        } else {
            self
        }
    }
}

impl View for KeyRegistryState {
    type V = KeysView;

    open spec fn view(&self) -> KeysView {
        KeysView { current: self.current@, generations: self.generations@ }
    }
}

impl KeyRegistryState {
    /// The tables are sound.
    pub open spec fn wf(&self) -> bool {
        &&& self.current.wf()
        &&& self.generations.wf()
        &&& self@.sound()
    }

    /// Whether the reservation has a generation that was given out.
    pub open spec fn issued(&self, reservation: &KeyReservation) -> bool {
        &&& reservation.generation <= self@.last_generation(reservation.key@)
        &&& reservation.previous matches Some((older, _)) ==> older < reservation.generation
    }

    /// No keys.
    pub fn new() -> (state: Self)
        ensures
            state.wf(),
            state@ == (KeysView { current: Map::empty(), generations: Map::empty() }),
    {
        KeyRegistryState { current: NameTable::new(), generations: NameTable::new() }
    }

    /// The run that holds a key, if a run does.
    pub fn holder(&self, key: &String) -> (run: Option<TaskRunId>)
        requires
            self.wf(),
        ensures
            run == match self@.replaced(key@) {
                Some((_, run_id)) => Some(run_id),
                None => None,
            },
    {
        match self.current.get(key) {
            Some(KeyEntry::Running { run_id, .. }) => Some(*run_id),
            _ => None,
        }
    }

    /// Removes the holder of a key that is a run that is over. `finished` says whether the
    /// run that holds the key is over.
    pub fn remove_terminal(&mut self, key: &String, finished: bool)
        requires
            old(self).wf(),
        ensures
            final(self).wf(),
            final(self)@ == old(self)@.without_finished(key@, finished),
    {
        let running: bool = match self.current.get(key) {
            Some(KeyEntry::Running { .. }) => true,
            _ => false,
        };
        if running && finished {
            self.current.remove(key);
        }
    }

    /// The next generation of a key, unless they are used up.
    pub fn next_generation(&mut self, key: &String) -> (generation: Option<u64>)
        requires
            old(self).wf(),
        ensures
            final(self).wf(),
            final(self).current == old(self).current,
            match generation {
                Some(generation) => {
                    &&& old(self)@.last_generation(key@) < u64::MAX
                    &&& generation == old(self)@.last_generation(key@) + 1
                    &&& final(self)@.generations == old(self)@.generations.insert(
                        key@,
                        generation,
                    )
                },
                None => {
                    &&& old(self)@.last_generation(key@) == u64::MAX
                    &&& *final(self) == *old(self)
                },
            },
    {
        let last: u64 = match self.generations.get(key) {
            Some(last) => *last,
            None => 0,
        };
        if last == u64::MAX {
            return None;
        }
        let next: u64 = last + 1;
        self.generations.insert(key.clone(), next);
        Some(next)
    }

    /// What is told about the holder of a key, after a run that is over was removed.
    pub fn key_status(&mut self, key: &String, finished: bool) -> (status: Option<KeyStatus>)
        requires
            old(self).wf(),
        ensures
            final(self).wf(),
            final(self)@ == old(self)@.without_finished(key@, finished),
            status == if final(self)@.current.contains_key(key@) {
                Some(final(self)@.current[key@].described())
            } else {
                None
            },
    {
        self.remove_terminal(key, finished);
        match self.current.get(key) {
            Some(entry) => Some(entry.status()),
            None => None,
        }
    }

    /// Stops a key: a submission that is under way will not become a run. Gives out the
    /// run to cancel, if there is one; nothing is stopped where the key has no holder.
    pub fn stop_key(&mut self, key: &String, finished: bool) -> (stopped: Option<
        Option<TaskRunId>,
    >)
        requires
            old(self).wf(),
        ensures
            final(self).wf(),
            ({
                let cleared = old(self)@.without_finished(key@, finished);
                &&& final(self)@ == cleared.stopped(key@)
                &&& stopped == if cleared.current.contains_key(key@) {
                    Some(
                        match cleared.current[key@] {
                            KeyEntry::Running { run_id, .. } => Some(run_id),
                            KeyEntry::Reserved { previous: Some((_, run_id)), .. } => Some(run_id),
                            _ => None,
                        },
                    )
                } else {
                    None
                }
            }),
    {
        self.remove_terminal(key, finished);
        match self.current.position(key) {
            Some(at) => {
                let entry: KeyEntry = self.current.entries[at].1;
                match entry {
                    KeyEntry::Running { run_id, .. } => Some(Some(run_id)),
                    KeyEntry::Reserved { token, generation, previous, .. } => {
                        self.current.set_at(
                            at,
                            KeyEntry::Reserved { token, generation, previous, stopped: true },
                        );
                        match previous {
                            Some((_, run_id)) => Some(Some(run_id)),
                            None => Some(None),
                        }
                    },
                }
            },
            None => None,
        }
    }

    /// Reserves a key for a submission. A held key can only be reserved to replace a run.
    pub fn reserve_key(&mut self, key: String, replace: bool, finished: bool) -> (result: Result<
        KeyReservation,
        ReserveKeyError,
    >)
        requires
            old(self).wf(),
        ensures
            final(self).wf(),
            ({
                let cleared = old(self)@.without_finished(key@, finished);
                match result {
                    Err(ReserveKeyError::Busy(status)) => {
                        &&& cleared.blocks(key@, replace)
                        &&& status == cleared.current[key@].described()
                        &&& final(self)@ == cleared
                    },
                    Err(ReserveKeyError::GenerationExhausted) => {
                        &&& !cleared.blocks(key@, replace)
                        &&& cleared.last_generation(key@) == u64::MAX
                        &&& final(self)@ == cleared
                    },
                    Ok(reservation) => {
                        &&& !cleared.blocks(key@, replace)
                        &&& cleared.last_generation(key@) < u64::MAX
                        &&& is_random_uuid(reservation.token)
                        &&& reservation.key == key
                        &&& reservation.generation == cleared.last_generation(key@) + 1
                        &&& reservation.previous == cleared.replaced(key@)
                        &&& final(self)@ == cleared.reserved(key@, reservation.token)
                        &&& final(self).issued(&reservation)
                    },
                }
            }),
    {
        self.remove_terminal(&key, finished);
        let ghost cleared = self@;
        let mut previous: Option<(u64, TaskRunId)> = None;
        if let Some(current) = self.current.get(&key) {
            match current {
                KeyEntry::Reserved { .. } => {
                    return Err(ReserveKeyError::Busy(current.status()));
                },
                KeyEntry::Running { generation, run_id } => {
                    if !replace {
                        return Err(ReserveKeyError::Busy(current.status()));
                    }
                    previous = Some((*generation, *run_id));
                },
            }
        }
        assert(previous == cleared.replaced(key@));
        let generation: u64 = match self.next_generation(&key) {
            Some(generation) => generation,
            None => {
                return Err(ReserveKeyError::GenerationExhausted);
            },
        };
        let token: u128 = random_uuid();
        self.current.insert(
            key.clone(),
            KeyEntry::Reserved { token, generation, previous, stopped: false },
        );
        assert(self@ =~= cleared.reserved(key@, token));
        proof {
            assert forall|k: Seq<char>| #[trigger] self@.current.contains_key(k) implies {
                &&& self@.current[k].held_generation() <= self@.last_generation(k)
                &&& self@.current[k] matches KeyEntry::Reserved {
                    generation,
                    previous: Some((older, _)),
                    ..
                } ==> older < generation
            } by {
                if k != key@ {
                    assert(cleared.current.contains_key(k));
                } else if cleared.current.contains_key(k) {
                    assert(cleared.current[k].held_generation() <= cleared.last_generation(k));
                }
            }
        }
        Ok(KeyReservation { key, token, generation, previous })
    }

    /// Whether the reservation still stands and its key was not stopped.
    pub fn is_active(&self, reservation: &KeyReservation) -> (active: bool)
        requires
            self.wf(),
        ensures
            active == self@.active(reservation.key@, reservation.token),
    {
        match self.current.get(&reservation.key) {
            Some(KeyEntry::Reserved { token, stopped, .. }) => *token == reservation.token
                && !*stopped,
            _ => false,
        }
    }

    fn holds(&self, reservation: &KeyReservation) -> (holds: bool)
        requires
            self.wf(),
        ensures
            holds == self@.holds(reservation.key@, reservation.token),
    {
        match self.current.get(&reservation.key) {
            Some(KeyEntry::Reserved { token, .. }) => *token == reservation.token,
            _ => false,
        }
    }

    /// Gives the key to a run, unless the key was stopped or the run is over already.
    pub fn commit(&mut self, reservation: KeyReservation, run: &mut RunShared) -> (committed: bool)
        requires
            old(self).wf(),
            old(self).issued(&reservation),
        ensures
            final(self).wf(),
            committed == (old(self)@.active(reservation.key@, reservation.token) && !old(
                run,
            ).terminal),
            final(self)@ == old(self)@.committed(
                reservation.key@,
                reservation.token,
                reservation.generation,
                old(run).run_id,
                old(run).terminal,
            ),
            *final(run) == if committed {
                RunShared {
                    key_registration: Some(
                        KeyRegistration {
                            key: reservation.key,
                            generation: reservation.generation,
                        },
                    ),
                    ..*old(run)
                }
            } else {
                *old(run)
            },
    {
        let active: bool = self.is_active(&reservation);
        if !active || run.terminal {
            if self.holds(&reservation) {
                self.current.remove(&reservation.key);
            }
            return false;
        }
        self.current.insert(
            reservation.key.clone(),
            KeyEntry::Running { generation: reservation.generation, run_id: run.run_id },
        );
        run.key_registration =
        Some(KeyRegistration { key: reservation.key, generation: reservation.generation });
        true
    }

    /// Gives a reservation up whose run is over already.
    pub fn abandon(&mut self, reservation: KeyReservation)
        requires
            old(self).wf(),
        ensures
            final(self).wf(),
            final(self)@ == if old(self)@.holds(reservation.key@, reservation.token) {
                KeysView { current: old(self)@.current.remove(reservation.key@), ..old(self)@ }
            } else {
                old(self)@
            },
    {
        if self.holds(&reservation) {
            self.current.remove(&reservation.key);
        }
    }

    /// Gives a reservation up. `finished` says whether the run that was to be replaced is
    /// over.
    pub fn release(&mut self, reservation: KeyReservation, finished: bool)
        requires
            old(self).wf(),
            old(self).issued(&reservation),
        ensures
            final(self).wf(),
            final(self)@ == old(self)@.released(
                reservation.key@,
                reservation.token,
                reservation.previous,
                finished,
            ),
    {
        if !self.holds(&reservation) {
            return;
        }
        if !self.is_active(&reservation) {
            self.current.remove(&reservation.key);
            return;
        }
        match reservation.previous {
            Some((generation, run_id)) => {
                if finished {
                    self.current.remove(&reservation.key);
                } else {
                    self.current.insert(
                        reservation.key,
                        KeyEntry::Running { generation, run_id },
                    );
                }
            },
            None => {
                self.current.remove(&reservation.key);
            },
        }
    }

    /// Takes a key away from a run that is over, if the run still holds it.
    pub fn remove(&mut self, registration: &KeyRegistration, run_id: TaskRunId)
        requires
            old(self).wf(),
        ensures
            final(self).wf(),
            final(self)@ == old(self)@.unheld(registration.key@, registration.generation, run_id),
    {
        let held: bool = match self.current.get(&registration.key) {
            Some(KeyEntry::Running { generation, run_id: held_by }) => *generation
                == registration.generation && held_by.0 == run_id.0,
            _ => false,
        };
        if held {
            self.current.remove(&registration.key);
        }
    }
}

/// Generations of a key only grow: a new reservation has a greater one than every holder
/// before it.
pub proof fn lemma_generations_grow(keys: KeysView, key: Seq<char>, token: u128)
    requires
        keys.sound(),
        keys.last_generation(key) < u64::MAX,
    ensures
        keys.reserved(key, token).last_generation(key) > keys.last_generation(key),
        keys.reserved(key, token).current[key].held_generation() == keys.reserved(
            key,
            token,
        ).last_generation(key),
        keys.current.contains_key(key) ==> keys.reserved(
            key,
            token,
        ).current[key].held_generation() > keys.current[key].held_generation(),
{
    if keys.current.contains_key(key) {
        assert(keys.current[key].held_generation() <= keys.last_generation(key));
    }
}

/// A reservation that is given up leaves the holders as they were, unless the run that
/// was to be replaced is over.
pub proof fn lemma_release_restores(keys: KeysView, key: Seq<char>, token: u128)
    requires
        !keys.blocks(key, true),
    ensures
        keys.reserved(key, token).released(key, token, keys.replaced(key), false).current
            == keys.current,
{
    assert(keys.reserved(key, token).released(key, token, keys.replaced(key), false).current
        =~= keys.current);
}

/// A key that is stopped while a submission is under way is not given to its run.
pub proof fn lemma_stopped_submission_gets_no_key(
    keys: KeysView,
    key: Seq<char>,
    token: u128,
    generation: u64,
    run_id: TaskRunId,
    finished: bool,
)
    ensures
        ({
            let stopped = keys.reserved(key, token).stopped(key);
            &&& !stopped.active(key, token)
            &&& !stopped.committed(key, token, generation, run_id, finished).current.contains_key(
                key,
            )
        }),
{
}

/// What holds of one key is not touched by reservations of another.
pub proof fn lemma_keys_are_independent(
    keys: KeysView,
    key: Seq<char>,
    other: Seq<char>,
    token: u128,
)
    requires
        key != other,
    ensures
        keys.reserved(key, token).current.contains_key(other) == keys.current.contains_key(other),
        keys.current.contains_key(other) ==> keys.reserved(key, token).current[other]
            == keys.current[other],
        keys.reserved(key, token).last_generation(other) == keys.last_generation(other),
{
}

/// A run that holds a key is told as such with its generation; a submission under way is told
/// as replacing, with the run that it replaces if there is one.
pub proof fn lemma_what_is_told_about_holders(entry: KeyEntry)
    ensures
        entry matches KeyEntry::Running { generation, run_id } ==> {
            &&& entry.described().generation == generation
            &&& entry.described().run_id == Some(run_id)
            &&& !entry.described().replacing
        },
        entry matches KeyEntry::Reserved { token, generation, previous, stopped } ==> {
            &&& entry.described().generation == generation
            &&& entry.described().replacing
            &&& previous is None ==> entry.described().run_id is None
            &&& previous matches Some(replaced) ==> entry.described().run_id == Some(replaced.1)
        },
{
}

/// A key that is free can be reserved by anyone; one that a run holds, only to replace it; one
/// with a submission under way, by nobody. The run that would be replaced is the one that
/// holds the key.
pub proof fn lemma_who_can_reserve(keys: KeysView, key: Seq<char>)
    ensures
        !keys.current.contains_key(key) ==> !keys.blocks(key, false) && !keys.blocks(key, true)
            && keys.replaced(key) is None,
        keys.current.contains_key(key) ==> keys.blocks(key, false),
        keys.current.contains_key(key) && keys.current[key] is Running ==> {
            &&& !keys.blocks(key, true)
            &&& keys.replaced(key) == Some(
                (keys.current[key]->Running_generation, keys.current[key]->run_id),
            )
        },
        keys.current.contains_key(key) && keys.current[key] is Reserved ==> keys.blocks(key, true)
            && keys.replaced(key) is None,
{
}

/// A run that is over loses its key, and nothing else does.
pub proof fn lemma_finished_holders_lose_their_key(
    keys: KeysView,
    key: Seq<char>,
    other: Seq<char>,
    finished: bool,
)
    ensures
        keys.current.contains_key(key) && keys.current[key] is Running && finished
            ==> !keys.without_finished(key, finished).current.contains_key(key),
        !finished ==> keys.without_finished(key, finished) == keys,
        keys.current.contains_key(key) && keys.current[key] is Reserved ==> keys.without_finished(
            key,
            finished,
        ) == keys,
        other != key ==> keys.without_finished(key, finished).current.contains_key(other)
            == keys.current.contains_key(other),
        keys.without_finished(key, finished).generations == keys.generations,
{
}

/// A reservation takes the next generation, stands for its key under its token, is active, and
/// keeps the run that it replaces.
pub proof fn lemma_reservation_takes_the_next_generation(
    keys: KeysView,
    key: Seq<char>,
    token: u128,
    other: u128,
)
    requires
        keys.last_generation(key) < u64::MAX,
    ensures
        ({
            let after = keys.reserved(key, token);
            &&& after.current.contains_key(key)
            &&& after.current[key] == (KeyEntry::Reserved {
                token,
                generation: (keys.last_generation(key) + 1) as u64,
                previous: keys.replaced(key),
                stopped: false,
            })
            &&& after.generations.contains_key(key)
            &&& after.generations[key] == keys.last_generation(key) + 1
            &&& after.holds(key, token)
            &&& after.active(key, token)
            &&& other != token ==> !after.holds(key, other)
        }),
        !keys.generations.contains_key(key) ==> keys.last_generation(key) == 0,
        keys.generations.contains_key(key) ==> keys.last_generation(key) == keys.generations[key],
{
}

/// A reservation that stands becomes the hold of its run, unless the key was stopped or the
/// run is over: then the key is free. One that does not stand any more changes nothing.
pub proof fn lemma_who_gets_the_key(
    keys: KeysView,
    key: Seq<char>,
    token: u128,
    generation: u64,
    run_id: TaskRunId,
    finished: bool,
)
    ensures
        keys.holds(key, token) <==> keys.current.contains_key(key) && keys.current[key] is Reserved
            && keys.current[key]->token == token,
        keys.active(key, token) <==> keys.holds(key, token) && !keys.current[key]->stopped,
        ({
            let after = keys.committed(key, token, generation, run_id, finished);
            &&& keys.holds(key, token) && !keys.current[key]->stopped && !finished ==> {
                &&& after.current.contains_key(key)
                &&& after.current[key] == (KeyEntry::Running { generation, run_id })
            }
            &&& keys.holds(key, token) && (keys.current[key]->stopped || finished)
                ==> !after.current.contains_key(key)
            &&& !keys.holds(key, token) ==> after == keys
            &&& after.generations == keys.generations
        }),
{
}

/// A reservation that is given up gives the key back to the run that was to be replaced, or to
/// nobody if there is none, it is over, or the key was stopped.
pub proof fn lemma_who_holds_a_released_key(
    keys: KeysView,
    key: Seq<char>,
    token: u128,
    generation: u64,
    run_id: TaskRunId,
    finished: bool,
)
    requires
        keys.holds(key, token),
    ensures
        !keys.released(key, token, None, finished).current.contains_key(key),
        keys.current[key]->stopped || finished ==> !keys.released(
            key,
            token,
            Some((generation, run_id)),
            finished,
        ).current.contains_key(key),
        !keys.current[key]->stopped && !finished ==> {
            let after = keys.released(key, token, Some((generation, run_id)), finished);
            &&& after.current.contains_key(key)
            &&& after.current[key] == (KeyEntry::Running { generation, run_id })
        },
        keys.released(key, token, None, finished).generations == keys.generations,
{
}

/// The end of a run frees its key only if it is this very run that holds it.
pub proof fn lemma_only_the_holder_frees_the_key(
    keys: KeysView,
    key: Seq<char>,
    generation: u64,
    run_id: TaskRunId,
)
    ensures
        keys.current.contains_key(key) && keys.current[key] == (KeyEntry::Running {
            generation,
            run_id,
        }) ==> !keys.unheld(key, generation, run_id).current.contains_key(key),
        !(keys.current.contains_key(key) && keys.current[key] == (KeyEntry::Running {
            generation,
            run_id,
        })) ==> keys.unheld(key, generation, run_id) == keys,
        keys.unheld(key, generation, run_id).generations == keys.generations,
{
}

/// A stop reaches a submission that is under way, and leaves a run with its key: that run is
/// asked to stop itself.
pub proof fn lemma_what_a_stop_of_a_key_does(keys: KeysView, key: Seq<char>, token: u128)
    ensures
        keys.holds(key, token) ==> {
            &&& keys.stopped(key).holds(key, token)
            &&& !keys.stopped(key).active(key, token)
        },
        keys.current.contains_key(key) && keys.current[key] is Running ==> keys.stopped(key)
            == keys,
        !keys.current.contains_key(key) ==> keys.stopped(key) == keys,
        keys.stopped(key).generations == keys.generations,
{
}

} // verus!
