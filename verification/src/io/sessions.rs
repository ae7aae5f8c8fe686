//! Unbounded sessions of one server.

use std::collections::HashMap;

use vstd::prelude::*;

use crate::io::session_id::McpSessionId;
use crate::registry::ToolRegistry;
use crate::server::{built_identity, BuilderView, McpServer, McpServerBuilder, Phase};

verus! {

broadcast use vstd::std_specs::hash::group_hash_axioms;

/// Session storage for MCP servers.
///
/// Each session has its own [`McpServer`] instance tracking protocol state.
pub struct Sessions<R: ToolRegistry> {
    /// Map of session ID to server instance.
    servers: HashMap<u128, McpServer<R>>,
    /// Builder for creating new server instances.
    builder: McpServerBuilder<R>,
}

impl<R: ToolRegistry> Sessions<R> {
    /// The servers by the raw value of their identifiers.
    pub closed spec fn contents(&self) -> Map<u128, McpServer<R>> {
        self.servers@
    }

    /// What new servers are built from.
    pub closed spec fn template(&self) -> BuilderView {
        self.builder@
    }

    /// Creates a new session store with the given server builder.
    pub fn new(builder: McpServerBuilder<R>) -> (r: Sessions<R>)
        ensures
            r.contents() == Map::<u128, McpServer<R>>::empty(),
            r.template() == builder@,
    {
        Sessions { servers: HashMap::new(), builder }
    }

    /// Inserts a new session with the given ID.
    pub fn insert(&mut self, id: McpSessionId)
        ensures
            final(self).template() == old(self).template(),
            final(self).contents().dom() == old(self).contents().dom().insert(id.raw()),
            final(self).contents()[id.raw()].identity() == built_identity(
                old(self).template(),
                R::ENABLED,
            ),
            final(self).contents()[id.raw()].phase() == Phase::WaitingForInitialize,
            forall|other: u128|
                other != id.raw() && #[trigger] old(self).contents().contains_key(other)
                    ==> final(self).contents()[other] == old(self).contents()[other],
    {
        let server = self.builder.build();
        self.servers.insert(id.as_raw(), server);
    }

    /// Removes a session by ID. Returns true if the session existed.
    pub fn remove(&mut self, id: McpSessionId) -> (r: bool)
        ensures
            final(self).template() == old(self).template(),
            r == old(self).contents().contains_key(id.raw()),
            final(self).contents() == old(self).contents().remove(id.raw()),
    {
        self.servers.remove(&id.as_raw()).is_some()
    }

    /// Returns the number of active sessions.
    pub fn len(&self) -> (r: usize)
        ensures
            r == self.contents().len(),
    {
        self.servers.len()
    }

    /// Returns true if there are no active sessions.
    pub fn is_empty(&self) -> (r: bool)
        ensures
            r == (self.contents().len() == 0),
    {
        self.servers.len() == 0
    }
}

} // verus!
