//! Session storage.

use std::collections::HashMap;

use vstd::prelude::*;

use crate::io::session_id::McpSessionId;
use crate::message::{Message, MessageView};
use crate::registry::ToolRegistry;
use crate::server::{answers, McpServer, Output};

verus! {

broadcast use vstd::std_specs::hash::group_hash_axioms;

/// Default number of sessions that are kept.
pub const DEFAULT_CAPACITY: usize = 10_000;

/// Default age of a session, in nanoseconds, before which it is not evicted.
pub const DEFAULT_MIN_EVICTION_AGE: u128 = 120_000_000_000;

/// Errors of in-memory session storage.
#[derive(Clone, Copy, Debug, PartialEq, Eq, Structural)]
pub enum InMemoryStorageError {
    /// The storage is full, and no session is old enough to be evicted.
    AtCapacity,
}

impl InMemoryStorageError {
    /// States the error.
    pub fn to_string(&self) -> (r: String)
        ensures
            r@ == "session storage at capacity"@,
    {
        "session storage at capacity".to_owned()
    }
}

/// A session: its server, and when it was last accessed.
pub struct SessionEntry<R: ToolRegistry> {
    pub server: McpServer<R>,
    pub last_accessed: u128,
}

/// In-memory session storage with bounded capacity.
///
/// When the storage is full, the session that was accessed longest ago makes room for a new one,
/// if it has been idle long enough. Times are readings of one clock, in nanoseconds.
pub struct InMemoryStorage<R: ToolRegistry> {
    sessions: HashMap<u128, SessionEntry<R>>,
    capacity: usize,
    min_eviction_age: u128,
}

/// Whether there are finitely many sessions, and no more than a limit.
pub open spec fn bounded_by<R: ToolRegistry>(
    sessions: Map<u128, SessionEntry<R>>,
    limit: usize,
) -> bool {
    sessions.dom().finite() && sessions.len() <= limit
}

/// Whether a session has been idle long enough to be evicted.
pub open spec fn evictable<R: ToolRegistry>(entry: SessionEntry<R>, now: u128, age: u128) -> bool {
    entry.last_accessed + age < now
}

/// Whether a session is among those that can be evicted the one accessed longest ago.
pub open spec fn oldest_evictable<R: ToolRegistry>(
    sessions: Map<u128, SessionEntry<R>>,
    key: u128,
    now: u128,
    age: u128,
) -> bool {
    &&& sessions.contains_key(key)
    &&& evictable(sessions[key], now, age)
    &&& forall|other: u128| #[trigger]
        sessions.contains_key(other) && evictable(sessions[other], now, age)
            ==> sessions[key].last_accessed <= sessions[other].last_accessed
}

/// Whether a session is stored as it should be. There is room, or the evictable session accessed
/// longest ago makes room, or nothing is stored.
pub open spec fn stores<R: ToolRegistry>(
    before: Map<u128, SessionEntry<R>>,
    limit: usize,
    age: u128,
    id: u128,
    server: McpServer<R>,
    now: u128,
    stored: bool,
    after: Map<u128, SessionEntry<R>>,
) -> bool {
    let entry = SessionEntry { server, last_accessed: now };
    if before.len() < limit {
        stored && after == before.insert(id, entry)
    } else if exists|key: u128| #[trigger]
        before.contains_key(key) && evictable(before[key], now, age) {
        stored && exists|key: u128| #[trigger]
            oldest_evictable(before, key, now, age) && after == before.remove(key).insert(id, entry)
    } else {
        !stored && after == before
    }
}

/// Whether a message is handed to a session as it should be: the session answers it and is
/// accessed now, and every other session stays as it is. Without such a session nothing happens.
pub open spec fn hands_on<R: ToolRegistry>(
    before: Map<u128, SessionEntry<R>>,
    id: u128,
    message: MessageView,
    now: u128,
    output: Option<Output<R>>,
    after: Map<u128, SessionEntry<R>>,
) -> bool {
    match output {
        Some(output) => {
            &&& before.contains_key(id)
            &&& after.dom() == before.dom()
            &&& after[id].last_accessed == now
            &&& after[id].server.identity() == before[id].server.identity()
            &&& answers(
                before[id].server.identity(),
                before[id].server.phase(),
                message,
                output,
                after[id].server.phase(),
            )
            &&& forall|other: u128|
                other != id && #[trigger] before.contains_key(other) ==> after[other]
                    == before[other]
        },
        None => !before.contains_key(id) && after == before,
    }
}

impl<R: ToolRegistry> InMemoryStorage<R> {
    /// The sessions by the raw value of their identifiers.
    pub closed spec fn contents(&self) -> Map<u128, SessionEntry<R>> {
        self.sessions@
    }

    /// The number of sessions that are kept.
    pub closed spec fn limit(&self) -> usize {
        self.capacity
    }

    /// The age before which a session is not evicted.
    pub closed spec fn eviction_age(&self) -> u128 {
        self.min_eviction_age
    }

    /// There are never more sessions than the capacity.
    #[verifier::type_invariant]
    spec fn bounded(&self) -> bool {
        bounded_by(self.sessions@, self.capacity)
    }

    /// Creates a storage with a capacity and a minimum eviction age.
    pub fn new(capacity: usize, min_eviction_age: u128) -> (r: InMemoryStorage<R>)
        ensures
            r.contents() == Map::<u128, SessionEntry<R>>::empty(),
            r.contents().dom().finite(),
            r.limit() == capacity,
            r.eviction_age() == min_eviction_age,
    {
        InMemoryStorage { sessions: HashMap::new(), capacity, min_eviction_age }
    }

    /// Returns the number of sessions, which never exceeds the capacity.
    pub fn len(&self) -> (r: usize)
        ensures
            r == self.contents().len(),
            r <= self.limit(),
            self.contents().dom().finite(),
    {
        proof {
            use_type_invariant(self);
        }
        self.sessions.len()
    }

    /// Returns true if there are no sessions.
    pub fn is_empty(&self) -> (r: bool)
        ensures
            r == (self.contents().len() == 0),
    {
        self.sessions.len() == 0
    }

    /// Finds the session accessed longest ago among those that can be evicted.
    fn find_oldest(&self, now: u128) -> (r: Option<u128>)
        ensures
            match r {
                Some(key) => oldest_evictable(self.contents(), key, now, self.eviction_age()),
                None => forall|key: u128| #[trigger]
                    self.contents().contains_key(key) ==> !evictable(
                        self.contents()[key],
                        now,
                        self.eviction_age(),
                    ),
            },
    {
        let mut best: Option<(u128, u128)> = None;
        let ghost all = self.sessions@;
        let ghost age = self.min_eviction_age;
        for pair in iter: self.sessions.iter()
            invariant
                all == self.sessions@,
                age == self.min_eviction_age,
                forall|i: int|
                    0 <= i < iter.seq().len() ==> all.contains_key(*(#[trigger] iter.seq()[i]).0)
                        && all[*iter.seq()[i].0] == *iter.seq()[i].1,
                forall|k: u128| #[trigger]
                    all.contains_key(k) ==> iter.seq().contains((&k, &all[k])),
                match best {
                    Some((key, last)) => {
                        &&& all.contains_key(key)
                        &&& all[key].last_accessed == last
                        &&& evictable(all[key], now, age)
                        &&& forall|i: int|
                            0 <= i < iter.index() && evictable(
                                *(#[trigger] iter.seq()[i]).1,
                                now,
                                age,
                            ) ==> last <= iter.seq()[i].1.last_accessed
                    },
                    None => forall|i: int|
                        0 <= i < iter.index() ==> !evictable(
                            *(#[trigger] iter.seq()[i]).1,
                            now,
                            age,
                        ),
                },
        {
            let (key, entry) = pair;
            let old_enough: bool = now >= self.min_eviction_age && entry.last_accessed < now
                - self.min_eviction_age;
            if old_enough {
                let better: bool = match best {
                    Some((_, last)) => entry.last_accessed < last,
                    None => true,
                };
                if better {
                    best = Some((*key, entry.last_accessed));
                }
            }
        }
        match best {
            Some((key, last)) => Some(key),
            None => None,
        }
    }

    /// Stores a session under a new identifier. A full storage first evicts the session accessed
    /// longest ago, if one is old enough.
    pub fn create(&mut self, id: McpSessionId, server: McpServer<R>, now: u128) -> (r: Result<
        McpSessionId,
        InMemoryStorageError,
    >)
        ensures
            final(self).limit() == old(self).limit(),
            final(self).eviction_age() == old(self).eviction_age(),
            bounded_by(old(self).contents(), old(self).limit()),
            bounded_by(final(self).contents(), final(self).limit()),
            stores(
                old(self).contents(),
                old(self).limit(),
                old(self).eviction_age(),
                id.raw(),
                server,
                now,
                r is Ok,
                final(self).contents(),
            ),
            match r {
                Ok(made) => made == id,
                Err(error) => error == InMemoryStorageError::AtCapacity,
            },
    {
        proof {
            use_type_invariant(&*self);
        }
        let ghost before = self.sessions@;
        let full: bool = self.sessions.len() >= self.capacity;
        let victim: Option<u128> = if full {
            self.find_oldest(now)
        } else {
            None
        };
        if full && victim.is_none() {
            return Err(InMemoryStorageError::AtCapacity);
        }
        let mut sessions: HashMap<u128, SessionEntry<R>> = HashMap::new();
        std::mem::swap(&mut sessions, &mut self.sessions);
        if let Some(key) = victim {
            sessions.remove(&key);
            assert(oldest_evictable(before, key, now, self.min_eviction_age));
            assert(before.contains_key(key));
            assert(sessions@ == before.remove(key));
        }
        sessions.insert(id.as_raw(), SessionEntry { server, last_accessed: now });
        self.sessions = sessions;
        Ok(id)
    }

    /// Takes a session out, to be put back with [`InMemoryStorage::put_back`].
    pub fn take_out(&mut self, id: McpSessionId) -> (r: Option<McpServer<R>>)
        ensures
            final(self).limit() == old(self).limit(),
            final(self).eviction_age() == old(self).eviction_age(),
            bounded_by(final(self).contents(), final(self).limit()),
            final(self).contents() == old(self).contents().remove(id.raw()),
            match r {
                Some(server) => old(self).contents().contains_key(id.raw()) && old(
                    self,
                ).contents()[id.raw()].server == server,
                None => !old(self).contents().contains_key(id.raw()),
            },
    {
        proof {
            use_type_invariant(&*self);
        }
        let mut sessions: HashMap<u128, SessionEntry<R>> = HashMap::new();
        std::mem::swap(&mut sessions, &mut self.sessions);
        let taken = sessions.remove(&id.as_raw());
        self.sessions = sessions;
        match taken {
            Some(entry) => Some(entry.server),
            None => None,
        }
    }

    /// Puts a session back, accessed now. A storage that is full in the meantime leaves it out.
    pub fn put_back(&mut self, id: McpSessionId, server: McpServer<R>, now: u128) -> (r: bool)
        ensures
            final(self).limit() == old(self).limit(),
            final(self).eviction_age() == old(self).eviction_age(),
            bounded_by(final(self).contents(), final(self).limit()),
            r == (old(self).contents().len() < old(self).limit()),
            r ==> final(self).contents() == old(self).contents().insert(
                id.raw(),
                SessionEntry { server, last_accessed: now },
            ),
            !r ==> final(self).contents() == old(self).contents(),
    {
        proof {
            use_type_invariant(&*self);
        }
        if self.sessions.len() >= self.capacity {
            return false;
        }
        let mut sessions: HashMap<u128, SessionEntry<R>> = HashMap::new();
        std::mem::swap(&mut sessions, &mut self.sessions);
        sessions.insert(id.as_raw(), SessionEntry { server, last_accessed: now });
        self.sessions = sessions;
        true
    }

    /// Hands a message to a session, which is thereby accessed now. There is no output where there
    /// is no such session.
    pub fn handle(&mut self, id: McpSessionId, message: Message, now: u128) -> (r: Option<
        Output<R>,
    >)
        ensures
            final(self).limit() == old(self).limit(),
            final(self).eviction_age() == old(self).eviction_age(),
            bounded_by(final(self).contents(), final(self).limit()),
            hands_on(
                old(self).contents(),
                id.raw(),
                message@,
                now,
                r,
                final(self).contents(),
            ),
    {
        proof {
            use_type_invariant(&*self);
        }
        let ghost before = self.sessions@;
        match self.take_out(id) {
            Some(server) => {
                assert(before.remove(id.raw()).len() == before.len() - 1);
                let mut server = server;
                let output = server.handle(message);
                let kept: bool = self.put_back(id, server, now);
                assert(self.sessions@.dom() =~= before.dom());
                Some(output)
            },
            None => {
                assert(before.remove(id.raw()) =~= before);
                None
            },
        }
    }

    /// Removes a session. Returns true if the session existed.
    pub fn remove(&mut self, id: McpSessionId) -> (r: bool)
        ensures
            final(self).limit() == old(self).limit(),
            final(self).eviction_age() == old(self).eviction_age(),
            bounded_by(final(self).contents(), final(self).limit()),
            r == old(self).contents().contains_key(id.raw()),
            final(self).contents() == old(self).contents().remove(id.raw()),
    {
        self.take_out(id).is_some()
    }
}

// ---------------------------------------------------------------------------------------------
// Laws

/// Storing a session never evicts one that has not been idle long enough.
pub proof fn young_sessions_stay<R: ToolRegistry>(
    before: Map<u128, SessionEntry<R>>,
    limit: usize,
    age: u128,
    id: u128,
    server: McpServer<R>,
    now: u128,
    stored: bool,
    after: Map<u128, SessionEntry<R>>,
    key: u128,
)
    requires
        stores(before, limit, age, id, server, now, stored, after),
        before.contains_key(key),
        key != id,
        !evictable(before[key], now, age),
    ensures
        after.contains_key(key),
        after[key] == before[key],
{
}

/// Storing a session evicts at most one, and only from a full storage.
pub proof fn at_most_one_leaves<R: ToolRegistry>(
    before: Map<u128, SessionEntry<R>>,
    limit: usize,
    age: u128,
    id: u128,
    server: McpServer<R>,
    now: u128,
    stored: bool,
    after: Map<u128, SessionEntry<R>>,
)
    requires
        stores(before, limit, age, id, server, now, stored, after),
    ensures
        before.len() < limit ==> forall|key: u128| #[trigger]
            before.contains_key(key) ==> after.contains_key(key),
        forall|a: u128, b: u128| #[trigger]
            before.contains_key(a) && #[trigger] before.contains_key(b) && !after.contains_key(a)
                && !after.contains_key(b) ==> a == b,
{
}

/// A session is refused exactly when the storage is full and no session has been idle long enough,
/// and nothing changes then.
pub proof fn refused_when_full_of_young_sessions<R: ToolRegistry>(
    before: Map<u128, SessionEntry<R>>,
    limit: usize,
    age: u128,
    id: u128,
    server: McpServer<R>,
    now: u128,
    stored: bool,
    after: Map<u128, SessionEntry<R>>,
)
    requires
        stores(before, limit, age, id, server, now, stored, after),
    ensures
        !stored <==> before.len() >= limit && forall|key: u128| #[trigger]
            before.contains_key(key) ==> !evictable(before[key], now, age),
        !stored ==> after == before,
{
}

/// A storage without capacity refuses every session.
pub proof fn no_capacity_no_sessions<R: ToolRegistry>(
    before: Map<u128, SessionEntry<R>>,
    age: u128,
    id: u128,
    server: McpServer<R>,
    now: u128,
    stored: bool,
    after: Map<u128, SessionEntry<R>>,
)
    requires
        stores(before, 0, age, id, server, now, stored, after),
        bounded_by(before, 0),
    ensures
        !stored,
        after == before,
{
    assert(before.dom() =~= Set::<u128>::empty());
    assert forall|key: u128| !(#[trigger] before.contains_key(key)) by {
        assert(!before.dom().contains(key));
    }
}

/// A storage within its capacity stays within it.
pub proof fn capacity_is_kept<R: ToolRegistry>(
    before: Map<u128, SessionEntry<R>>,
    limit: usize,
    age: u128,
    id: u128,
    server: McpServer<R>,
    now: u128,
    stored: bool,
    after: Map<u128, SessionEntry<R>>,
)
    requires
        stores(before, limit, age, id, server, now, stored, after),
        bounded_by(before, limit),
    ensures
        bounded_by(after, limit),
{
    if stored && before.len() >= limit {
        let gone = choose|gone: u128| #[trigger]
            oldest_evictable(before, gone, now, age) && after == before.remove(gone).insert(
                id,
                SessionEntry { server, last_accessed: now },
            );
        assert(before.dom().remove(gone).len() == before.dom().len() - 1);
        assert(after.dom() =~= before.dom().remove(gone).insert(id));
    } else if stored {
        assert(after.dom() =~= before.dom().insert(id));
    }
}

/// A session that was stored can be reached.
pub proof fn stored_sessions_are_reached<R: ToolRegistry>(
    before: Map<u128, SessionEntry<R>>,
    limit: usize,
    age: u128,
    id: u128,
    server: McpServer<R>,
    now: u128,
    after: Map<u128, SessionEntry<R>>,
    message: MessageView,
    later: u128,
    output: Option<Output<R>>,
    last: Map<u128, SessionEntry<R>>,
)
    requires
        stores(before, limit, age, id, server, now, true, after),
        hands_on(after, id, message, later, output, last),
    ensures
        output matches Some(output) && answers(
            server.identity(),
            server.phase(),
            message,
            output,
            last[id].server.phase(),
        ),
{
}

/// A session that leaves for another has been idle for longer than the least age, and none that has
/// been was idle for longer.
pub proof fn longest_idle_session_leaves<R: ToolRegistry>(
    before: Map<u128, SessionEntry<R>>,
    limit: usize,
    age: u128,
    id: u128,
    server: McpServer<R>,
    now: u128,
    stored: bool,
    after: Map<u128, SessionEntry<R>>,
    gone: u128,
    other: u128,
)
    requires
        stores(before, limit, age, id, server, now, stored, after),
        before.contains_key(gone),
        !after.contains_key(gone),
        before.contains_key(other),
    ensures
        now > before[gone].last_accessed + age,
        before[other].last_accessed >= before[gone].last_accessed,
        before.len() >= limit,
        after.contains_key(id),
{
    if before[other].last_accessed < before[gone].last_accessed {
        assert(evictable(before[other], now, age));
    }
}

/// A full storage takes a new session exactly if one of its sessions has been idle for longer than
/// the least age, and the new one counts as accessed now.
pub proof fn idle_sessions_make_room<R: ToolRegistry>(
    before: Map<u128, SessionEntry<R>>,
    limit: usize,
    age: u128,
    id: u128,
    server: McpServer<R>,
    now: u128,
    stored: bool,
    after: Map<u128, SessionEntry<R>>,
)
    requires
        stores(before, limit, age, id, server, now, stored, after),
    ensures
        stored <==> before.len() < limit || exists|key: u128| #[trigger]
            before.contains_key(key) && now > before[key].last_accessed + age,
        stored ==> after.contains_key(id) && after[id].last_accessed == now && after[id].server
            == server,
{
    if before.len() >= limit {
        if exists|key: u128| #[trigger]
            before.contains_key(key) && now > before[key].last_accessed + age {
            let key = choose|key: u128| #[trigger]
                before.contains_key(key) && now > before[key].last_accessed + age;
            assert(before.contains_key(key) && evictable(before[key], now, age));
        }
        if stored {
            let key = choose|key: u128| #[trigger]
                before.contains_key(key) && evictable(before[key], now, age);
            assert(before.contains_key(key) && now > before[key].last_accessed + age);
        }
    }
}

} // verus!
