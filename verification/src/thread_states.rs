//! Per-thread run-state tracking.
//!
//! The tracker keeps an optional global status, which applies to every thread
//! without a more specific entry, together with a per-thread override table.
//! Stopping, continuing or exiting *all* threads sets the global status and
//! clears every override; acting on a single thread touches only that
//! thread's override.

use crate::thread_status::{ThreadId, ThreadStatus};
use vstd::prelude::*;

verus! {

#[verifier::external_type_specification]
#[verifier::external_body]
#[verifier::reject_recursive_types(K)]
#[verifier::reject_recursive_types(V)]
#[verifier::reject_recursive_types(S)]
pub struct ExIndexMap<K, V, S>(indexmap::IndexMap<K, V, S>);

/// The key-to-value association held by an ordered override table.
pub uninterp spec fn status_map_of(m: indexmap::IndexMap<i64, ThreadStatus>) -> Map<
    i64,
    ThreadStatus,
>;

/// Whether the override table holds no entry at all.
pub open spec fn status_map_is_empty(m: indexmap::IndexMap<i64, ThreadStatus>) -> bool {
    status_map_of(m) == Map::<i64, ThreadStatus>::empty()
}

/// Whether some key of `m` is mapped to `s`.
pub open spec fn map_has_value(m: Map<i64, ThreadStatus>, s: ThreadStatus) -> bool {
    exists|k: i64| #[trigger] m.dom().contains(k) && m[k] == s
}

/// Relies on indexmap::IndexMap::new: creates an empty map.
#[verifier::external_body]
fn status_map_new() -> (m: indexmap::IndexMap<i64, ThreadStatus>)
    ensures
        status_map_is_empty(m),
{
    indexmap::IndexMap::new()
}

/// Relies on indexmap::IndexMap::insert: sets the value at a key, replacing
/// any previous value for an equivalent key.
#[verifier::external_body]
fn status_map_insert(m: &mut indexmap::IndexMap<i64, ThreadStatus>, key: i64, value: ThreadStatus)
    ensures
        status_map_of(*final(m)) == status_map_of(*old(m)).insert(key, value),
{
    m.insert(key, value);
}

/// Relies on indexmap::IndexMap::get: looks a key up.
#[verifier::external_body]
fn status_map_get(m: &indexmap::IndexMap<i64, ThreadStatus>, key: i64) -> (r: Option<ThreadStatus>)
    ensures
        r == if status_map_of(*m).dom().contains(key) {
            Some(status_map_of(*m)[key])
        } else {
            None::<ThreadStatus>
        },
{
    m.get(&key).copied()
}

/// Relies on indexmap::IndexMap::clear: removes every entry.
#[verifier::external_body]
fn status_map_clear(m: &mut indexmap::IndexMap<i64, ThreadStatus>)
    ensures
        status_map_is_empty(*final(m)),
{
    m.clear();
}

/// Relies on indexmap::IndexMap::values: yields exactly the stored values.
#[verifier::external_body]
fn status_map_values(m: &indexmap::IndexMap<i64, ThreadStatus>) -> (v: Vec<ThreadStatus>)
    ensures
        forall|s: ThreadStatus| #[trigger] v@.contains(s) <==> map_has_value(status_map_of(*m), s),
{
    m.values().copied().collect()
}

/// Run-state model for all threads of one session: a global status that
/// covers any thread without an override, plus per-thread overrides.
pub struct ThreadStates {
    global_state: Option<ThreadStatus>,
    known_thread_states: indexmap::IndexMap<i64, ThreadStatus>,
}

impl ThreadStates {
    /// The per-thread override table.
    pub closed spec fn overrides(self) -> Map<i64, ThreadStatus> {
        status_map_of(self.known_thread_states)
    }

    /// The global status, if one has been set.
    pub closed spec fn global(self) -> Option<ThreadStatus> {
        self.global_state
    }

    /// The status reported for a thread: its override if present, else the
    /// global status if present, else `Running`.
    pub open spec fn status_of(self, thread_id: i64) -> ThreadStatus {
        if self.overrides().dom().contains(thread_id) {
            self.overrides()[thread_id]
        } else if self.global() is Some {
            self.global()->0
        } else {
            ThreadStatus::Running
        }
    }

    /// The known state of a thread, if any: its override, else the global
    /// status.
    pub open spec fn state_of(self, thread_id: i64) -> Option<ThreadStatus> {
        if self.overrides().dom().contains(thread_id) {
            Some(self.overrides()[thread_id])
        } else {
            self.global()
        }
    }

    /// Whether any thread is currently stopped, via the global status or via
    /// an override.
    pub open spec fn some_stopped(self) -> bool {
        self.global() == Some(ThreadStatus::Stopped) || map_has_value(
            self.overrides(),
            ThreadStatus::Stopped,
        )
    }

    pub fn new() -> (r: Self)
        ensures
            r.global() is None,
            r.overrides() == Map::<i64, ThreadStatus>::empty(),
    {
        ThreadStates { global_state: None, known_thread_states: status_map_new() }
    }

    fn set_all_threads(&mut self, status: ThreadStatus)
        ensures
            final(self).global() == Some(status),
            final(self).overrides() == Map::<i64, ThreadStatus>::empty(),
    {
        self.global_state = Some(status);
        status_map_clear(&mut self.known_thread_states);
    }

    pub fn stop_all_threads(&mut self)
        ensures
            final(self).global() == Some(ThreadStatus::Stopped),
            final(self).overrides() == Map::<i64, ThreadStatus>::empty(),
    {
        self.set_all_threads(ThreadStatus::Stopped);
    }

    pub fn exit_all_threads(&mut self)
        ensures
            final(self).global() == Some(ThreadStatus::Exited),
            final(self).overrides() == Map::<i64, ThreadStatus>::empty(),
    {
        self.set_all_threads(ThreadStatus::Exited);
    }

    pub fn continue_all_threads(&mut self)
        ensures
            final(self).global() == Some(ThreadStatus::Running),
            final(self).overrides() == Map::<i64, ThreadStatus>::empty(),
    {
        self.set_all_threads(ThreadStatus::Running);
    }

    fn set_thread(&mut self, thread_id: ThreadId, status: ThreadStatus)
        ensures
            final(self).global() == old(self).global(),
            final(self).overrides() == old(self).overrides().insert(thread_id.0, status),
    {
        status_map_insert(&mut self.known_thread_states, thread_id.0, status);
    }

    pub fn stop_thread(&mut self, thread_id: ThreadId)
        ensures
            final(self).global() == old(self).global(),
            final(self).overrides() == old(self).overrides().insert(
                thread_id.0,
                ThreadStatus::Stopped,
            ),
    {
        self.set_thread(thread_id, ThreadStatus::Stopped);
    }

    pub fn continue_thread(&mut self, thread_id: ThreadId)
        ensures
            final(self).global() == old(self).global(),
            final(self).overrides() == old(self).overrides().insert(
                thread_id.0,
                ThreadStatus::Running,
            ),
    {
        self.set_thread(thread_id, ThreadStatus::Running);
    }

    pub fn process_step(&mut self, thread_id: ThreadId)
        ensures
            final(self).global() == old(self).global(),
            final(self).overrides() == old(self).overrides().insert(
                thread_id.0,
                ThreadStatus::Stepping,
            ),
    {
        self.set_thread(thread_id, ThreadStatus::Stepping);
    }

    pub fn exit_thread(&mut self, thread_id: ThreadId)
        ensures
            final(self).global() == old(self).global(),
            final(self).overrides() == old(self).overrides().insert(
                thread_id.0,
                ThreadStatus::Exited,
            ),
    {
        self.set_thread(thread_id, ThreadStatus::Exited);
    }

    pub fn thread_status(&self, thread_id: ThreadId) -> (r: ThreadStatus)
        ensures
            r == self.status_of(thread_id.0),
    {
        match self.thread_state(thread_id) {
            Some(status) => status,
            None => ThreadStatus::Running,
        }
    }

    pub fn thread_state(&self, thread_id: ThreadId) -> (r: Option<ThreadStatus>)
        ensures
            r == self.state_of(thread_id.0),
    {
        match status_map_get(&self.known_thread_states, thread_id.0) {
            Some(status) => Some(status),
            None => self.global_state,
        }
    }

    #[verifier::loop_isolation(false)]
    pub fn any_stopped_thread(&self) -> (r: bool)
        ensures
            r == self.some_stopped(),
    {
        if matches!(self.global_state, Some(ThreadStatus::Stopped)) {
            return true;
        }
        let values = status_map_values(&self.known_thread_states);
        let mut i: usize = 0;
        while i < values.len()
            invariant
                i <= values.len(),
                forall|j: int| 0 <= j < i ==> values@[j] != ThreadStatus::Stopped,
            decreases values.len() - i,
        {
            if matches!(values[i], ThreadStatus::Stopped) {
                assert(values@.contains(ThreadStatus::Stopped));
                return true;
            }
            i += 1;
        }
        assert(!values@.contains(ThreadStatus::Stopped));
        false
    }
}

/// Law: a thread's reported status is the override most recently set for it;
/// with no override it is the global status most recently set; with neither
/// it is `Running`. The mutators' contracts pin "most recently set": setting
/// a single thread updates exactly that override, and setting all threads
/// replaces the global status and clears every override.
pub proof fn lemma_thread_status_resolution(ts: ThreadStates, t: i64)
    ensures
        ts.overrides().dom().contains(t) ==> ts.status_of(t) == ts.overrides()[t],
        !ts.overrides().dom().contains(t) && ts.global() is Some ==> ts.status_of(t) == ts.global(
        )->0,
        !ts.overrides().dom().contains(t) && ts.global() is None ==> ts.status_of(t)
            == ThreadStatus::Running,
{
}

} // verus!
