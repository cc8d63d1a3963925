//! De-duplicating, invalidatable cache of cacheable read commands.
//!
//! Only commands marked cacheable participate. A fetch is refused outright
//! when no thread is stopped (unless it is the thread-listing command) or
//! when the session is terminated; an admitted fetch is de-duplicated
//! against the slot of an equal command value, whether that slot is still
//! in flight or already completed. Invalidation drops every slot of a kind,
//! or one exact command value.

use crate::commands::{key_kind, query_eq, CommandKind, QueryCommand, QueryKey};
use vstd::prelude::*;
use vstd::seq_lib::group_seq_properties;

verus! {

/// Whether a cacheable command of kind `kind` is admitted at all: the
/// session must not be terminated, and some thread must be stopped unless
/// the command lists threads.
pub open spec fn admits(any_stopped: bool, terminated: bool, kind: CommandKind) -> bool {
    (any_stopped || kind == CommandKind::Threads) && !terminated
}

/// Whether a fetch issues a new request: it must be admitted and no slot
/// with an equal command value may exist.
pub open spec fn fetch_issues(
    keys: Seq<QueryKey>,
    key: QueryKey,
    any_stopped: bool,
    terminated: bool,
) -> bool {
    admits(any_stopped, terminated, key_kind(key)) && !keys.contains(key)
}

/// The cache's slots after a fetch: unchanged unless the fetch was admitted
/// and found no equal slot, in which case the command's slot is appended.
pub open spec fn fetch_result_keys(
    keys: Seq<QueryKey>,
    key: QueryKey,
    any_stopped: bool,
    terminated: bool,
) -> Seq<QueryKey> {
    if fetch_issues(keys, key, any_stopped, terminated) {
        keys.push(key)
    } else {
        keys
    }
}

/// Keeps the commands whose kind differs from `kind`.
pub open spec fn not_of_kind(kind: CommandKind) -> spec_fn(QueryKey) -> bool {
    |k: QueryKey| key_kind(k) != kind
}

/// Keeps the commands whose identity differs from `key`.
pub open spec fn not_key(key: QueryKey) -> spec_fn(QueryKey) -> bool {
    |k: QueryKey| k != key
}

/// Keeps the commands whose kind survives a generic invalidation sweep.
pub open spec fn not_generic() -> spec_fn(QueryKey) -> bool {
    |k: QueryKey| !generic_kind(key_kind(k))
}

/// The cache of commands that have a live or completed slot, in insertion
/// order.
pub struct RequestCache {
    slots: Vec<QueryCommand>,
}

impl RequestCache {
    /// The identities of all cached commands, in insertion order.
    pub closed spec fn keys(self) -> Seq<QueryKey> {
        self.slots@.map_values(|q: QueryCommand| q@)
    }

    pub fn new() -> (r: Self)
        ensures
            r.keys().len() == 0,
    {
        let r = RequestCache { slots: Vec::new() };
        proof {
            assert(r.keys() =~= Seq::<QueryKey>::empty());
        }
        r
    }

    /// Whether a slot with an equal command value exists.
    pub fn contains(&self, command: &QueryCommand) -> (r: bool)
        ensures
            r == self.keys().contains(command@),
    {
        let mut i: usize = 0;
        while i < self.slots.len()
            invariant
                i <= self.slots@.len(),
                forall|j: int| 0 <= j < i ==> self.keys()[j] != command@,
            decreases self.slots@.len() - i,
        {
            if query_eq(&self.slots[i], command) {
                assert(self.keys()[i as int] == command@);
                return true;
            }
            i += 1;
        }
        assert(forall|j: int| 0 <= j < self.keys().len() ==> self.keys()[j] != command@);
        false
    }

    /// Runs the admission check and identity lookup for a cacheable
    /// command; returns whether a new request must be issued, in which case
    /// the command now occupies a slot.
    pub fn fetch(&mut self, command: QueryCommand, any_stopped: bool, terminated: bool) -> (issue:
        bool)
        ensures
            issue == fetch_issues(old(self).keys(), command@, any_stopped, terminated),
            final(self).keys() == fetch_result_keys(
                old(self).keys(),
                command@,
                any_stopped,
                terminated,
            ),
    {
        let kind = command.kind();
        if (!any_stopped && !matches!(kind, CommandKind::Threads)) || terminated {
            return false;
        }
        if self.contains(&command) {
            return false;
        }
        let ghost old_keys = self.keys();
        self.slots.push(command);
        proof {
            assert(self.keys() =~= old_keys.push(self.slots@.last()@));
        }
        true
    }

    /// Drops every slot whose command is of the given kind.
    pub fn invalidate_kind(&mut self, kind: CommandKind)
        ensures
            final(self).keys() == old(self).keys().filter(not_of_kind(kind)),
    {
        let ghost pred = not_of_kind(kind);
        let mut kept: Vec<QueryCommand> = Vec::new();
        let mut i: usize = 0;
        proof {
            broadcast use group_seq_properties;

            reveal(Seq::filter);
            assert(kept@.map_values(|q: QueryCommand| q@) =~= old(self).keys().take(0).filter(
                pred,
            ));
        }
        while i < self.slots.len()
            invariant
                i <= self.slots@.len(),
                self.slots == old(self).slots,
                pred == not_of_kind(kind),
                kept@.map_values(|q: QueryCommand| q@) == old(self).keys().take(i as int).filter(
                    pred,
                ),
            decreases self.slots@.len() - i,
        {
            proof {
                reveal(Seq::filter);
                assert(old(self).keys().take(i + 1).drop_last() =~= old(self).keys().take(
                    i as int,
                ));
                assert(old(self).keys().take(i + 1).last() == self.slots@[i as int]@);
            }
            let command_kind = self.slots[i].kind();
            if command_kind != kind {
                let ghost kept_keys = kept@.map_values(|q: QueryCommand| q@);
                kept.push(self.slots[i].clone());
                proof {
                    assert(kept@.map_values(|q: QueryCommand| q@) =~= kept_keys.push(
                        self.slots@[i as int]@,
                    ));
                }
            }
            i += 1;
        }
        proof {
            assert(old(self).keys().take(self.slots@.len() as int) =~= old(self).keys());
        }
        self.slots = kept;
    }

    /// Drops the slot of one exact command value, if present.
    pub fn invalidate(&mut self, command: &QueryCommand)
        ensures
            final(self).keys() == old(self).keys().filter(not_key(command@)),
    {
        let ghost pred = not_key(command@);
        let mut kept: Vec<QueryCommand> = Vec::new();
        let mut i: usize = 0;
        proof {
            reveal(Seq::filter);
            assert(kept@.map_values(|q: QueryCommand| q@) =~= old(self).keys().take(0).filter(
                pred,
            ));
        }
        while i < self.slots.len()
            invariant
                i <= self.slots@.len(),
                self.slots == old(self).slots,
                pred == not_key(command@),
                kept@.map_values(|q: QueryCommand| q@) == old(self).keys().take(i as int).filter(
                    pred,
                ),
            decreases self.slots@.len() - i,
        {
            proof {
                reveal(Seq::filter);
                assert(old(self).keys().take(i + 1).drop_last() =~= old(self).keys().take(
                    i as int,
                ));
                assert(old(self).keys().take(i + 1).last() == self.slots@[i as int]@);
            }
            if !query_eq(&self.slots[i], command) {
                let ghost kept_keys = kept@.map_values(|q: QueryCommand| q@);
                kept.push(self.slots[i].clone());
                proof {
                    assert(kept@.map_values(|q: QueryCommand| q@) =~= kept_keys.push(
                        self.slots@[i as int]@,
                    ));
                }
            }
            i += 1;
        }
        proof {
            assert(old(self).keys().take(self.slots@.len() as int) =~= old(self).keys());
        }
        self.slots = kept;
    }
}

/// Whether `keys` holds some command of the given kind.
pub open spec fn spec_has_kind(keys: Seq<QueryKey>, kind: CommandKind) -> bool {
    exists|i: int| 0 <= i < keys.len() && key_kind(#[trigger] keys[i]) == kind
}

/// The kinds a generic invalidation sweep drops together: everything whose
/// data any event or action could have made stale.
pub open spec fn generic_kind(kind: CommandKind) -> bool {
    ||| kind == CommandKind::Modules
    ||| kind == CommandKind::LoadedSources
    ||| kind == CommandKind::Threads
    ||| kind == CommandKind::DataBreakpointInfo
    ||| kind == CommandKind::ReadMemory
}

impl RequestCache {
    /// Whether any slot of the given kind exists, in flight or completed.
    pub fn has_kind(&self, kind: CommandKind) -> (r: bool)
        ensures
            r == spec_has_kind(self.keys(), kind),
    {
        let mut i: usize = 0;
        while i < self.slots.len()
            invariant
                i <= self.slots@.len(),
                forall|j: int| 0 <= j < i ==> key_kind(#[trigger] self.keys()[j]) != kind,
            decreases self.slots@.len() - i,
        {
            let slot_kind = self.slots[i].kind();
            if slot_kind == kind {
                assert(key_kind(self.keys()[i as int]) == kind);
                return true;
            }
            i += 1;
        }
        false
    }

    /// The generic invalidation sweep: drops modules, loaded sources,
    /// threads, data-breakpoint info and memory reads together.
    pub fn invalidate_generic(&mut self)
        ensures
            final(self).keys() == old(self).keys().filter(not_generic()),
    {
        let ghost pred = not_generic();
        let mut kept: Vec<QueryCommand> = Vec::new();
        let mut i: usize = 0;
        proof {
            reveal(Seq::filter);
            assert(kept@.map_values(|q: QueryCommand| q@) =~= old(self).keys().take(0).filter(
                pred,
            ));
        }
        while i < self.slots.len()
            invariant
                i <= self.slots@.len(),
                self.slots == old(self).slots,
                pred == not_generic(),
                kept@.map_values(|q: QueryCommand| q@) == old(self).keys().take(i as int).filter(
                    pred,
                ),
            decreases self.slots@.len() - i,
        {
            proof {
                reveal(Seq::filter);
                assert(old(self).keys().take(i + 1).drop_last() =~= old(self).keys().take(
                    i as int,
                ));
                assert(old(self).keys().take(i + 1).last() == self.slots@[i as int]@);
            }
            let command_kind = self.slots[i].kind();
            let keep = match command_kind {
                CommandKind::Modules => false,
                CommandKind::LoadedSources => false,
                CommandKind::Threads => false,
                CommandKind::DataBreakpointInfo => false,
                CommandKind::ReadMemory => false,
                _ => true,
            };
            if keep {
                let ghost kept_keys = kept@.map_values(|q: QueryCommand| q@);
                kept.push(self.slots[i].clone());
                proof {
                    assert(kept@.map_values(|q: QueryCommand| q@) =~= kept_keys.push(
                        self.slots@[i as int]@,
                    ));
                }
            }
            i += 1;
        }
        proof {
            assert(old(self).keys().take(self.slots@.len() as int) =~= old(self).keys());
        }
        self.slots = kept;
    }
}

/// Law: for a cacheable command, a second fetch of an equal command value
/// made before the first resolves (no invalidation in between) does not
/// issue a second request -- the two calls issue exactly one request.
pub proof fn lemma_fetch_deduplicates(
    keys: Seq<QueryKey>,
    key: QueryKey,
    any_stopped: bool,
    terminated: bool,
)
    ensures
        !fetch_issues(
            fetch_result_keys(keys, key, any_stopped, terminated),
            key,
            any_stopped,
            terminated,
        ) || !fetch_issues(keys, key, any_stopped, terminated),
{
    if fetch_issues(keys, key, any_stopped, terminated) {
        assert(keys.push(key)[keys.len() as int] == key);
        assert(keys.push(key).contains(key));
    }
}

/// Law: invalidating a command kind guarantees that the next admitted
/// fetch of a command of that kind issues a new request, even when the
/// invalidated slot held a completed result.
pub proof fn lemma_invalidate_forces_refetch(
    keys: Seq<QueryKey>,
    key: QueryKey,
    any_stopped: bool,
    terminated: bool,
)
    requires
        admits(any_stopped, terminated, key_kind(key)),
    ensures
        fetch_issues(keys.filter(not_of_kind(key_kind(key))), key, any_stopped, terminated),
{
    let filtered = keys.filter(not_of_kind(key_kind(key)));
    if filtered.contains(key) {
        let i = choose|i: int| 0 <= i < filtered.len() && filtered[i] == key;
        Seq::lemma_filter_pred(keys, not_of_kind(key_kind(key)), i);
        assert(false);
    }
}

} // verus!
