//! The registry of connected WebSocket sessions that webhooks are broadcast to.
use std::collections::HashMap;
use vstd::prelude::*;
use vstd::std_specs::hash::{group_hash_axioms, spec_hash_map_iter};
use vstd::std_specs::iter::IteratorSpec;

verus! {

broadcast use group_hash_axioms;

/// The sessions that receive broadcasts, each under the id it was given when
/// it opened, and the id the next session will get. `R` is how a session is
/// reached.
pub struct WebSocketServer<R> {
    sessions: HashMap<usize, R>,
    next_id: usize,
}

impl<R> WebSocketServer<R> {
    /// The connected sessions by id.
    pub closed spec fn sessions(&self) -> Map<usize, R> {
        self.sessions@
    }

    /// The id the next session will be given.
    pub closed spec fn next_session_id(&self) -> usize {
        self.next_id
    }

    /// No session connected, and ids handed out from 0.
    pub fn new() -> (server: Self)
        ensures
            server.sessions() == Map::<usize, R>::empty(),
            server.next_session_id() == 0,
    {
        WebSocketServer { sessions: HashMap::new(), next_id: 0 }
    }

    /// The id the next session will be given.
    pub fn next_id(&self) -> (id: usize)
        ensures
            id == self.next_session_id(),
    {
        self.next_id
    }

    /// Hands out a fresh session id.
    pub fn get_next_id(&mut self) -> (id: usize)
        requires
            old(self).next_session_id() < usize::MAX,
        ensures
            id == old(self).next_session_id(),
            final(self).next_session_id() == old(self).next_session_id() + 1,
            final(self).sessions() == old(self).sessions(),
    {
        let id: usize = self.next_id;
        self.next_id = self.next_id + 1;
        id
    }

    /// Registers the session `id`, reached through `recipient` (replacing an
    /// earlier session under the same id), and returns how many sessions are
    /// connected.
    pub fn connect(&mut self, id: usize, recipient: R) -> (connected: usize)
        ensures
            final(self).sessions() == old(self).sessions().insert(id, recipient),
            final(self).next_session_id() == old(self).next_session_id(),
            connected == final(self).sessions().len(),
    {
        let _ = self.sessions.insert(id, recipient);
        self.sessions.len()
    }

    /// Forgets the session `id` and returns how many sessions are connected.
    pub fn disconnect(&mut self, id: usize) -> (connected: usize)
        ensures
            final(self).sessions() == old(self).sessions().remove(id),
            final(self).next_session_id() == old(self).next_session_id(),
            connected == final(self).sessions().len(),
    {
        let _ = self.sessions.remove(&id);
        self.sessions.len()
    }

    /// How many sessions are connected.
    pub fn len(&self) -> (connected: usize)
        ensures
            connected == self.sessions().len(),
    {
        self.sessions.len()
    }

    /// Every connected session with how to reach it, each exactly once (in
    /// no particular order).
    pub fn entries(&self) -> (out: Vec<(usize, &R)>)
        ensures
            forall|i: int|
                0 <= i < out@.len() ==> self.sessions().contains_key(#[trigger] out@[i].0)
                    && *out@[i].1 == self.sessions()[out@[i].0],
            forall|i: int, j: int|
                0 <= i < out@.len() && 0 <= j < out@.len() && i != j ==> #[trigger] out@[i].0
                    != #[trigger] out@[j].0,
            forall|id: usize|
                #[trigger] self.sessions().contains_key(id) ==> exists|i: int|
                    0 <= i < out@.len() && #[trigger] out@[i].0 == id,
    {
        let mut out: Vec<(usize, &R)> = Vec::new();
        for entry in it: self.sessions.iter()
            invariant
                it.seq() == spec_hash_map_iter(&self.sessions).remaining(),
                out@.len() == it.index(),
                forall|j: int| 0 <= j < it.index() ==> out@[j] == (*it.seq()[j].0, it.seq()[j].1),
        {
            out.push((*entry.0, entry.1));
        }
        let ghost v = spec_hash_map_iter(&self.sessions).remaining();
        assert(v.no_duplicates());
        assert forall|i: int|
            0 <= i < out@.len() implies self.sessions().contains_key(#[trigger] out@[i].0)
                && *out@[i].1 == self.sessions()[out@[i].0] by {
            assert(self.sessions@.contains_key(*v[i].0) && self.sessions@[*v[i].0] == *v[i].1);
        }
        assert forall|i: int, j: int|
            0 <= i < out@.len() && 0 <= j < out@.len() && i != j implies #[trigger] out@[i].0
                != #[trigger] out@[j].0 by {
            if out@[i].0 == out@[j].0 {
                assert(self.sessions@.contains_key(*v[i].0) && self.sessions@[*v[i].0] == *v[i].1);
                assert(self.sessions@.contains_key(*v[j].0) && self.sessions@[*v[j].0] == *v[j].1);
                assert(v[i] == v[j]);
            }
        }
        assert forall|id: usize|
            #[trigger] self.sessions().contains_key(id) implies exists|i: int|
                0 <= i < out@.len() && #[trigger] out@[i].0 == id by {
            assert(v.contains((&id, &self.sessions@[id])));
            let j: int = choose|j: int| 0 <= j < v.len() && v[j] == (&id, &self.sessions@[id]);
            assert(out@[j].0 == id);
        }
        out
    }
}

/// Disconnecting a session that was just connected leaves the registry as it
/// was, when its id was not in use before.
pub proof fn lemma_disconnect_undoes_connect<R>(sessions: Map<usize, R>, id: usize, recipient: R)
    requires
        !sessions.contains_key(id),
    ensures
        sessions.insert(id, recipient).remove(id) == sessions,
{
    assert(sessions.insert(id, recipient).remove(id) =~= sessions);
}

/// Session ids are never handed out twice: an id handed out earlier is below
/// the next id, and the next id only grows, so every later id differs from it.
pub proof fn lemma_session_ids_fresh<R>(
    earlier: usize,
    before: WebSocketServer<R>,
    after: WebSocketServer<R>,
    later: usize,
)
    requires
        earlier < before.next_session_id(),
        before.next_session_id() <= after.next_session_id(),
        later == after.next_session_id(),
    ensures
        earlier != later,
{
}

impl<R> Default for WebSocketServer<R> {
    fn default() -> (server: Self)
        ensures
            server.sessions() == Map::<usize, R>::empty(),
            server.next_session_id() == 0,
    {
        WebSocketServer::new()
    }
}

} // verus!
